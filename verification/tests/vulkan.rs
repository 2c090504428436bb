use compositor::drmx::atomic_req::AtomicRequestCache;
use compositor::drmx::fourcc::ABGR8888;
use compositor::drmx::mode::CrtcState;
use compositor::drmx::{Format, Mode};
use compositor::scanout::DrmState;
use compositor::vulkan::buffer::{
    Abort, BufferPlan, BufferSetup, CommandBuffer, ImageRequest, ObjectLayout, PlaneLayout,
    Release, SetupAction, SetupEvent, SetupStep, ViewRequest, VulkanBuffer,
};
use compositor::vulkan::format::R8G8B8A8_UNORM;
use compositor::vulkan::render::{RenderAction, RenderCommand, RenderEvent, COMMANDS};
use compositor::vulkan::{ModifierProperties, Vulkan, VulkanError};

use Release::{Fd, Fence, Image, ImageView, Memory, Semaphore};

const CMD: Release = Release::CommandBuffer(CommandBuffer { pool: 50, handle: 1 });

const VULKAN: Vulkan = Vulkan { pool: 50, queue: 60 };

const CREATED: [SetupEvent; 10] = [
    SetupEvent::Created(1),
    SetupEvent::Created(2),
    SetupEvent::Done,
    SetupEvent::Requirements { size: 4096, image_kinds: 0b1100, fd_kinds: 0b0110 },
    SetupEvent::Created(3),
    SetupEvent::Done,
    SetupEvent::Created(4),
    SetupEvent::Created(5),
    SetupEvent::Created(6),
    SetupEvent::Created(7),
];

fn mode() -> Mode {
    Mode {
        clock: 1,
        hdisplay: 1920,
        hsync_start: 0,
        hsync_end: 0,
        htotal: 0,
        hskew: 0,
        vdisplay: 1080,
        vsync_start: 0,
        vsync_end: 0,
        vtotal: 0,
        vscan: 0,
        vrefresh: 60,
        flags: 0,
        mode_type: 8,
        name: [0; 32],
    }
}

fn drm() -> DrmState {
    DrmState {
        cache: AtomicRequestCache { objects: vec![] },
        crtc: 1,
        plane: 2,
        mode: mode(),
        connector: 3,
        format: Format(ABGR8888),
        modifiers: vec![],
        previous_state: CrtcState { framebuffer: None, position: (0, 0), mode: None },
    }
}

fn object() -> ObjectLayout {
    ObjectLayout { size: (640, 480), modifier: 9, planes: vec![(0, 2560), (1_228_800, 128)] }
}

fn plan() -> BufferPlan {
    VULKAN.new_buffer(&drm(), &object()).0
}

/// The setup after some steps that went well, and the actions up to there.
fn setup_after(plan: &BufferPlan, steps: usize) -> (BufferSetup, Vec<SetupAction<'_>>) {
    let (_, mut setup, action) = VULKAN.new_buffer(&drm(), &object());
    let mut actions = vec![action];
    for event in CREATED.iter().take(steps) {
        match setup.advance(plan, *event) {
            SetupStep::Next { setup: next, action } => {
                setup = next;
                actions.push(action);
            }
            other => panic!("{:?}", other),
        }
    }
    (setup, actions)
}

fn released(steps: usize) -> Vec<Release> {
    let plan = plan();
    match setup_after(&plan, steps).0.advance(&plan, SetupEvent::Failed) {
        SetupStep::Aborted { reason, release } => {
            assert_eq!(reason, Abort::Failed);
            release
        }
        other => panic!("{:?}", other),
    }
}

fn finished() -> VulkanBuffer {
    let plan = plan();
    match setup_after(&plan, 9).0.advance(&plan, CREATED[9]) {
        SetupStep::Finished(buffer) => buffer,
        other => panic!("{:?}", other),
    }
}

#[test]
fn a_buffer_is_made_step_by_step() {
    let plan = plan();
    let view = ViewRequest {
        image: 2,
        view_type: 1,
        format: R8G8B8A8_UNORM,
        aspect: 1,
        base_level: 0,
        levels: 1,
        base_layer: 0,
        layers: 1,
    };
    assert_eq!(
        setup_after(&plan, 9).1,
        vec![
            SetupAction::AllocateCommandBuffer { pool: 50 },
            SetupAction::CreateImage { request: &plan.image },
            SetupAction::ExportFd,
            SetupAction::QueryMemory { image: 2 },
            SetupAction::AllocateMemory { image: 2, size: 4096, kind: 2 },
            SetupAction::BindMemory { image: 2, memory: 3 },
            SetupAction::CreateImageView(view),
            SetupAction::CreateFence { signalled: true },
            SetupAction::CreateSemaphore,
            SetupAction::CreateImportFence,
        ]
    );
    assert_eq!(
        finished(),
        VulkanBuffer {
            memory: 3,
            image: 2,
            image_view: 4,
            fence: 7,
            semaphore: 6,
            cmd: CommandBuffer { pool: 50, handle: 1 },
            cmd_fence: 5,
            size: (1920, 1080),
        }
    );
}

#[test]
fn ten_steps_make_a_buffer() {
    let plan = plan();
    assert_eq!(setup_after(&plan, 9).1.len(), 10);
    assert!(matches!(setup_after(&plan, 9).0, BufferSetup::ImportFence { .. }));
    assert_eq!(finished().fence, 7);
}

#[test]
fn what_was_acquired_is_released_where_a_step_fails() {
    assert_eq!(released(0), vec![]);
    assert_eq!(released(1), vec![CMD]);
    assert_eq!(released(2), vec![Image(2), CMD]);
    assert_eq!(released(3), vec![Fd, Image(2), CMD]);
    assert_eq!(released(4), vec![Fd, Image(2), CMD]);
    assert_eq!(released(5), vec![Memory(3), Fd, Image(2), CMD]);
    assert_eq!(released(6), vec![Memory(3), Image(2), CMD]);
    assert_eq!(released(7), vec![ImageView(4), Memory(3), Image(2), CMD]);
}

#[test]
fn what_the_buffer_took_over_is_not_released() {
    assert_eq!(released(8), vec![Fence(5), CMD]);
    assert_eq!(released(9), vec![Semaphore(6), Fence(5), CMD]);
}

#[test]
fn memory_has_to_go_with_the_image_and_the_file_descriptor() {
    let plan = plan();
    let event = SetupEvent::Requirements { size: 1, image_kinds: 0b1001, fd_kinds: 0b0110 };
    match setup_after(&plan, 3).0.advance(&plan, event) {
        SetupStep::Aborted { reason, release } => {
            assert_eq!(reason, Abort::UnsupportedDmaMemory);
            assert_eq!(release, vec![Release::Fd, Release::Image(2), CMD]);
            assert!(matches!(
                reason.error(VulkanError::Vulkan(-1)),
                VulkanError::UnsupportedDmaMemory
            ));
        }
        other => panic!("{:?}", other),
    }
    assert!(matches!(Abort::Failed.error(VulkanError::Vulkan(-1)), VulkanError::Vulkan(-1)));
    let event = SetupEvent::Requirements { size: 1, image_kinds: 1 << 31, fd_kinds: u32::MAX };
    match setup_after(&plan, 3).0.advance(&plan, event) {
        SetupStep::Next { action, .. } => {
            assert_eq!(action, SetupAction::AllocateMemory { image: 2, size: 1, kind: 31 });
        }
        other => panic!("{:?}", other),
    }
}

#[test]
fn a_buffer_that_is_given_up_releases_all_it_holds() {
    assert_eq!(
        finished().drop(),
        vec![Fence(5), CMD, ImageView(4), Image(2), Memory(3)]
    );
}

#[test]
fn an_image_is_laid_out_as_its_buffer_object() {
    let plan = plan();
    assert_eq!(plan.size, (1920, 1080));
    assert_eq!(
        plan.image,
        ImageRequest {
            image_type: 1,
            format: R8G8B8A8_UNORM,
            width: 640,
            height: 480,
            depth: 1,
            mip_levels: 1,
            array_layers: 1,
            samples: 1,
            tiling: 1_000_158_000,
            usage: 0x10,
            sharing_mode: 0,
            initial_layout: 0,
            handle_types: 0x200,
            modifier: 9,
            planes: vec![
                PlaneLayout { offset: 0, row_pitch: 2560 },
                PlaneLayout { offset: 1_228_800, row_pitch: 128 },
            ],
        }
    );
}

#[test]
fn only_modifiers_that_can_be_drawn_to_are_offered() {
    let properties = |modifier, tiling_features| ModifierProperties { modifier, tiling_features };
    let known = vec![properties(1, 0x80), properties(2, 0x7f), properties(3, 0x181), properties(1, 0)];
    let mut offered: Vec<u64> = VULKAN.modifiers(&known).into_iter().collect();
    offered.sort();
    assert_eq!(offered, vec![1, 3]);
}

#[test]
fn a_buffer_in_use_is_not_drawn_to() {
    let next = |event| VULKAN.render(&finished(), 0, 4, event);
    assert!(matches!(next(RenderEvent::Start), RenderAction::CheckFence(7)));
    assert!(matches!(
        next(RenderEvent::BufferFence { signalled: false }),
        RenderAction::Pending
    ));
    assert!(matches!(
        next(RenderEvent::BufferFence { signalled: true }),
        RenderAction::CheckFence(5)
    ));
    assert!(matches!(
        next(RenderEvent::CommandFence { signalled: false }),
        RenderAction::Pending
    ));
}

#[test]
fn a_free_buffer_is_filled_with_the_colour_of_the_frame() {
    let buffer = finished();
    let mut event = RenderEvent::CommandFence { signalled: true };
    let mut commands = vec![];
    loop {
        match VULKAN.render(&buffer, 10, 4, event) {
            RenderAction::Run { index, command } => {
                assert_eq!(index, commands.len());
                commands.push(command);
                event = RenderEvent::Ran { index };
            }
            action => {
                assert_eq!(action, RenderAction::Ready);
                break;
            }
        }
    }
    assert_eq!(commands.len(), COMMANDS);
    assert_eq!(
        commands,
        vec![
            RenderCommand::ResetFences { buffer_fence: 7, cmd_fence: 5 },
            RenderCommand::ResetCommands { cmd: 1 },
            RenderCommand::Begin { cmd: 1 },
            RenderCommand::LayOut { cmd: 1, image: 2 },
            RenderCommand::BeginRendering {
                cmd: 1,
                image_view: 4,
                color: 2,
                width: 1920,
                height: 1080,
            },
            RenderCommand::EndRendering { cmd: 1 },
            RenderCommand::End { cmd: 1 },
            RenderCommand::Submit { queue: 60, cmd: 1, semaphore: 6, cmd_fence: 5 },
        ]
    );
}

#[test]
fn nothing_is_done_after_a_failure() {
    assert_eq!(VULKAN.render(&finished(), 0, 4, RenderEvent::Failed), RenderAction::Fail);
}

#[test]
fn errors_of_the_device_are_handed_on() {
    let buffer = finished();
    assert!(buffer.import_sync(Ok(())).is_ok());
    assert!(matches!(buffer.import_sync(Err(-4)), Err(VulkanError::Vulkan(-4))));
    assert!(matches!(buffer.export_sync(Ok(Some(3))), Ok(Some(3))));
    assert!(matches!(buffer.export_sync::<i32>(Ok(None)), Ok(None)));
    assert!(matches!(buffer.export_sync::<i32>(Err(-4)), Err(VulkanError::Vulkan(-4))));
}

#[test]
fn errors_tell_what_is_wrong() {
    let message = |error: VulkanError| error.message();
    assert_eq!(
        message(VulkanError::UnsupportedDmaMemory).as_deref(),
        Some("no supported DMA memory type can be imported into Vulkan")
    );
    assert_eq!(message(VulkanError::Other("a".to_string())).as_deref(), Some("a"));
    assert_eq!(message(VulkanError::Loading("b".to_string())).as_deref(), Some("b"));
    assert_eq!(message(VulkanError::Fd("c".to_string())).as_deref(), Some("c"));
    assert_eq!(message(VulkanError::Vulkan(-4)), None);
}

#[test]
fn a_text_is_an_error_of_its_own() {
    assert!(matches!(VulkanError::from("no device".to_string()), VulkanError::Other(text) if text == "no device"));
}
