//! Making a buffer fit to be drawn to.
//!
//! The image of a buffer lives in memory that another device allocated, so what
//! a buffer is made of is acquired step by step. [`BufferSetup`] says what comes
//! next, and what has to be released where a step fails.

use super::image::{
    ASPECT_COLOR, HANDLE_DMA_BUF, IMAGE_TYPE_2D, LAYOUT_UNDEFINED, SAMPLES_1, SHARING_EXCLUSIVE,
    TILING_DRM_FORMAT_MODIFIER, USAGE_COLOR_ATTACHMENT, VIEW_TYPE_2D,
};
use super::{Vulkan, VulkanError};
use crate::scanout::DrmState;
use crate::utils;
use vstd::prelude::*;

verus! {

/// A command buffer, and the pool that it belongs to.
#[derive(Debug, Clone, Copy, PartialEq, Eq, Structural)]
pub struct CommandBuffer {
    pub pool: u64,
    pub handle: u64,
}

/// A buffer that Vulkan draws to, by the handles of what it is made of.
///
/// Whoever lets a buffer go calls [`VulkanBuffer::drop`].
#[derive(Debug, PartialEq, Eq)]
pub struct VulkanBuffer {
    pub memory: u64,
    pub image: u64,
    pub image_view: u64,
    /// Signals when the buffer is no longer shown.
    pub fence: u64,
    /// Signals when the buffer is drawn.
    pub semaphore: u64,
    pub cmd: CommandBuffer,
    /// Signals when what was submitted for the buffer is done.
    pub cmd_fence: u64,
    pub size: (u32, u32),
}

/// Something that was acquired for a buffer and has to be released.
#[derive(Debug, Clone, Copy, PartialEq, Eq, Structural)]
pub enum Release {
    /// To be given back to its pool.
    CommandBuffer(CommandBuffer),
    Image(u64),
    /// The file descriptor of the memory, for as long as Vulkan does not own it.
    Fd,
    Memory(u64),
    ImageView(u64),
    Fence(u64),
    Semaphore(u64),
}

/// Where a plane of an image lies.
#[derive(Debug, Clone, Copy, PartialEq, Eq, Structural)]
pub struct PlaneLayout {
    pub offset: u64,
    pub row_pitch: u64,
}

/// What a buffer object says of itself: its size, its modifier, and the offset
/// and the stride of each plane.
#[derive(Debug)]
pub struct ObjectLayout {
    pub size: (u32, u32),
    pub modifier: u64,
    pub planes: Vec<(u32, u32)>,
}

impl ObjectLayout {
    /// Where the planes lie.
    pub open spec fn plane_layouts(self) -> Seq<PlaneLayout> {
        self.planes@.map_values(
            |p: (u32, u32)| PlaneLayout { offset: p.0 as u64, row_pitch: p.1 as u64 },
        )
    }

    fn layouts(&self) -> (r: Vec<PlaneLayout>)
        ensures
            r@ == self.plane_layouts(),
    {
        let mut layouts: Vec<PlaneLayout> = Vec::new();
        let mut i: usize = 0;
        while i < self.planes.len()
            invariant
                i <= self.planes@.len(),
                layouts@ == self.plane_layouts().take(i as int),
            decreases self.planes@.len() - i,
        {
            let (offset, stride) = self.planes[i];
            layouts.push(PlaneLayout { offset: offset as u64, row_pitch: stride as u64 });
            i = i + 1;
            assert(layouts@ =~= self.plane_layouts().take(i as int));
        }
        assert(self.plane_layouts().take(i as int) =~= self.plane_layouts());
        layouts
    }
}

/// The image to make for a buffer object.
#[derive(Debug, PartialEq, Eq)]
pub struct ImageRequest {
    pub image_type: i32,
    pub format: i32,
    pub width: u32,
    pub height: u32,
    pub depth: u32,
    pub mip_levels: u32,
    pub array_layers: u32,
    pub samples: u32,
    pub tiling: i32,
    pub usage: u32,
    pub sharing_mode: i32,
    pub initial_layout: i32,
    /// What the memory of the image is shared by.
    pub handle_types: u32,
    pub modifier: u64,
    pub planes: Vec<PlaneLayout>,
}

impl ImageRequest {
    /// Whether this asks for a plain image of the format, drawn to in the memory
    /// of the buffer object: one layer and one level of two dimensions, laid out
    /// as the buffer object is.
    pub open spec fn images(self, format: i32, object: ObjectLayout) -> bool {
        &&& self.image_type == IMAGE_TYPE_2D
        &&& self.format == format
        &&& (self.width, self.height, self.depth) == (object.size.0, object.size.1, 1u32)
        &&& self.mip_levels == 1
        &&& self.array_layers == 1
        &&& self.samples == SAMPLES_1
        &&& self.tiling == TILING_DRM_FORMAT_MODIFIER
        &&& self.usage == USAGE_COLOR_ATTACHMENT
        &&& self.sharing_mode == SHARING_EXCLUSIVE
        &&& self.initial_layout == LAYOUT_UNDEFINED
        &&& self.handle_types == HANDLE_DMA_BUF
        &&& self.modifier == object.modifier
        &&& self.planes@ == object.plane_layouts()
    }

    pub fn new(format: i32, object: &ObjectLayout) -> (r: Self)
        ensures
            r.images(format, *object),
    {
        ImageRequest {
            image_type: IMAGE_TYPE_2D,
            format,
            width: object.size.0,
            height: object.size.1,
            depth: 1,
            mip_levels: 1,
            array_layers: 1,
            samples: SAMPLES_1,
            tiling: TILING_DRM_FORMAT_MODIFIER,
            usage: USAGE_COLOR_ATTACHMENT,
            sharing_mode: SHARING_EXCLUSIVE,
            initial_layout: LAYOUT_UNDEFINED,
            handle_types: HANDLE_DMA_BUF,
            modifier: object.modifier,
            planes: object.layouts(),
        }
    }
}

/// The view to make of an image.
#[derive(Debug, Clone, Copy, PartialEq, Eq, Structural)]
pub struct ViewRequest {
    pub image: u64,
    pub view_type: i32,
    pub format: i32,
    pub aspect: u32,
    pub base_level: u32,
    pub levels: u32,
    pub base_layer: u32,
    pub layers: u32,
}

impl ViewRequest {
    /// A view of all of a plain image.
    pub open spec fn whole(image: u64, format: i32) -> ViewRequest {
        ViewRequest {
            image,
            view_type: VIEW_TYPE_2D,
            format,
            aspect: ASPECT_COLOR,
            base_level: 0,
            levels: 1,
            base_layer: 0,
            layers: 1,
        }
    }

    pub fn new(image: u64, format: i32) -> (r: Self)
        ensures
            r == ViewRequest::whole(image, format),
    {
        ViewRequest {
            image,
            view_type: VIEW_TYPE_2D,
            format,
            aspect: ASPECT_COLOR,
            base_level: 0,
            levels: 1,
            base_layer: 0,
            layers: 1,
        }
    }
}

/// What a buffer is made to be.
#[derive(Debug)]
pub struct BufferPlan {
    pub image: ImageRequest,
    /// The size of the mode that the buffer is shown with.
    pub size: (u32, u32),
}

impl BufferPlan {
    /// Whether this makes the buffer object one to draw to for the output.
    pub open spec fn makes(self, drm: DrmState, object: ObjectLayout) -> bool {
        &&& utils::vk_format_of(drm.format.0) == Some(self.image.format)
        &&& self.image.images(self.image.format, object)
        &&& self.size == (drm.mode.hdisplay as u32, drm.mode.vdisplay as u32)
    }
}

/// How far the making of a buffer is: which step is being done, and what was
/// acquired before.
#[derive(Debug, Clone, Copy, PartialEq, Eq, Structural)]
pub enum BufferSetup {
    CommandBuffer { pool: u64 },
    Image { cmd: CommandBuffer },
    Fd { cmd: CommandBuffer, image: u64 },
    MemoryQuery { cmd: CommandBuffer, image: u64 },
    Memory { cmd: CommandBuffer, image: u64 },
    Bind { cmd: CommandBuffer, image: u64, memory: u64 },
    ImageView { cmd: CommandBuffer, image: u64, memory: u64 },
    Fence { cmd: CommandBuffer, image: u64, memory: u64, image_view: u64 },
    Semaphore { cmd: CommandBuffer, image: u64, memory: u64, image_view: u64, cmd_fence: u64 },
    ImportFence {
        cmd: CommandBuffer,
        image: u64,
        memory: u64,
        image_view: u64,
        cmd_fence: u64,
        semaphore: u64,
    },
}

/// What came of a step.
#[derive(Debug, Clone, Copy, PartialEq, Eq, Structural)]
pub enum SetupEvent {
    /// Something was made.
    Created(u64),
    /// Something was done.
    Done,
    /// What memory the image needs, and what kinds of memory the file
    /// descriptor can be imported as. Bit `i` stands for the kind `i`.
    Requirements { size: u64, image_kinds: u32, fd_kinds: u32 },
    Failed,
}

/// What has to be done next.
#[derive(Debug, Clone, Copy, PartialEq, Eq)]
pub enum SetupAction<'a> {
    AllocateCommandBuffer { pool: u64 },
    CreateImage { request: &'a ImageRequest },
    /// Get a file descriptor of the buffer object's memory.
    ExportFd,
    QueryMemory { image: u64 },
    /// Import the file descriptor as the memory of the image.
    AllocateMemory { image: u64, size: u64, kind: u32 },
    BindMemory { image: u64, memory: u64 },
    /// Vulkan owns the file descriptor now, and closes it: forget it. Then
    /// create the view.
    CreateImageView(ViewRequest),
    /// Create a fence that is signalled at first, or not.
    CreateFence { signalled: bool },
    CreateSemaphore,
    CreateImportFence,
}

impl SetupAction<'_> {
    /// Whether the event is what doing the action can lead to.
    pub open spec fn leads_to(self, event: SetupEvent) -> bool {
        match event {
            SetupEvent::Failed => true,
            SetupEvent::Done => self is ExportFd || self is BindMemory,
            SetupEvent::Requirements { .. } => self is QueryMemory,
            SetupEvent::Created(_) => !(self is ExportFd || self is BindMemory
                || self is QueryMemory),
        }
    }
}

/// Why the making of a buffer ends without a buffer.
#[derive(Debug, Clone, Copy, PartialEq, Eq, Structural)]
pub enum Abort {
    /// A step failed.
    Failed,
    /// No kind of memory goes with both the image and the file descriptor.
    UnsupportedDmaMemory,
}

/// What comes after a step.
#[derive(Debug, PartialEq, Eq)]
pub enum SetupStep<'a> {
    Next { setup: BufferSetup, action: SetupAction<'a> },
    Finished(VulkanBuffer),
    /// Release all of this, in this order.
    Aborted { reason: Abort, release: Vec<Release> },
}

impl BufferSetup {
    /// All that is acquired, what was acquired last first.
    pub open spec fn held(self) -> Seq<Release> {
        match self {
            BufferSetup::CommandBuffer { .. } => seq![],
            BufferSetup::Image { cmd } => seq![Release::CommandBuffer(cmd)],
            BufferSetup::Fd { cmd, image } => seq![
                Release::Image(image),
                Release::CommandBuffer(cmd),
            ],
            BufferSetup::MemoryQuery { cmd, image } | BufferSetup::Memory { cmd, image } => seq![
                Release::Fd,
                Release::Image(image),
                Release::CommandBuffer(cmd),
            ],
            BufferSetup::Bind { cmd, image, memory } => seq![
                Release::Memory(memory),
                Release::Fd,
                Release::Image(image),
                Release::CommandBuffer(cmd),
            ],
            BufferSetup::ImageView { cmd, image, memory } => seq![
                Release::Memory(memory),
                Release::Image(image),
                Release::CommandBuffer(cmd),
            ],
            BufferSetup::Fence { cmd, image, memory, image_view } => seq![
                Release::ImageView(image_view),
                Release::Memory(memory),
                Release::Image(image),
                Release::CommandBuffer(cmd),
            ],
            BufferSetup::Semaphore { cmd, image, memory, image_view, cmd_fence } => seq![
                Release::Fence(cmd_fence),
                Release::ImageView(image_view),
                Release::Memory(memory),
                Release::Image(image),
                Release::CommandBuffer(cmd),
            ],
            BufferSetup::ImportFence { cmd, image, memory, image_view, cmd_fence, semaphore } =>
                seq![
                Release::Semaphore(semaphore),
                Release::Fence(cmd_fence),
                Release::ImageView(image_view),
                Release::Memory(memory),
                Release::Image(image),
                Release::CommandBuffer(cmd),
            ],
        }
    }

    /// What is released where the current step fails. The memory, the image and
    /// its view are already handed over to the buffer in the last two steps,
    /// and nobody releases them there.
    pub open spec fn released(self) -> Seq<Release> {
        match self {
            BufferSetup::Semaphore { cmd, cmd_fence, .. } => seq![
                Release::Fence(cmd_fence),
                Release::CommandBuffer(cmd),
            ],
            BufferSetup::ImportFence { cmd, cmd_fence, semaphore, .. } => seq![
                Release::Semaphore(semaphore),
                Release::Fence(cmd_fence),
                Release::CommandBuffer(cmd),
            ],
            _ => self.held(),
        }
    }

    /// Whether the event can come of the current step.
    pub open spec fn awaits(self, event: SetupEvent) -> bool {
        match event {
            SetupEvent::Failed => true,
            SetupEvent::Done => self is Fd || self is Bind,
            SetupEvent::Requirements { .. } => self is MemoryQuery,
            SetupEvent::Created(_) => !(self is Fd || self is Bind || self is MemoryQuery),
        }
    }

    /// How many steps are left, the current one among them.
    pub open spec fn steps_left(self) -> nat {
        match self {
            BufferSetup::CommandBuffer { .. } => 10,
            BufferSetup::Image { .. } => 9,
            BufferSetup::Fd { .. } => 8,
            BufferSetup::MemoryQuery { .. } => 7,
            BufferSetup::Memory { .. } => 6,
            BufferSetup::Bind { .. } => 5,
            BufferSetup::ImageView { .. } => 4,
            BufferSetup::Fence { .. } => 3,
            BufferSetup::Semaphore { .. } => 2,
            BufferSetup::ImportFence { .. } => 1,
        }
    }

    /// What comes after the current step, where it went well.
    pub open spec fn continued(self, plan: &BufferPlan, event: SetupEvent) -> SetupStep<'_> {
        let made = event->Created_0;
        match self {
            BufferSetup::CommandBuffer { pool } => SetupStep::Next {
                setup: BufferSetup::Image { cmd: CommandBuffer { pool, handle: made } },
                action: SetupAction::CreateImage { request: &plan.image },
            },
            BufferSetup::Image { cmd } => SetupStep::Next {
                setup: BufferSetup::Fd { cmd, image: made },
                action: SetupAction::ExportFd,
            },
            BufferSetup::Fd { cmd, image } => SetupStep::Next {
                setup: BufferSetup::MemoryQuery { cmd, image },
                action: SetupAction::QueryMemory { image },
            },
            BufferSetup::MemoryQuery { cmd, image } => SetupStep::Next {
                setup: BufferSetup::Memory { cmd, image },
                action: SetupAction::AllocateMemory {
                    image,
                    size: event->size,
                    kind: (event->image_kinds & event->fd_kinds).trailing_zeros(),
                },
            },
            BufferSetup::Memory { cmd, image } => SetupStep::Next {
                setup: BufferSetup::Bind { cmd, image, memory: made },
                action: SetupAction::BindMemory { image, memory: made },
            },
            BufferSetup::Bind { cmd, image, memory } => SetupStep::Next {
                setup: BufferSetup::ImageView { cmd, image, memory },
                action: SetupAction::CreateImageView(
                    ViewRequest::whole(image, plan.image.format),
                ),
            },
            BufferSetup::ImageView { cmd, image, memory } => SetupStep::Next {
                setup: BufferSetup::Fence { cmd, image, memory, image_view: made },
                action: SetupAction::CreateFence { signalled: true },
            },
            BufferSetup::Fence { cmd, image, memory, image_view } => SetupStep::Next {
                setup: BufferSetup::Semaphore { cmd, image, memory, image_view, cmd_fence: made },
                action: SetupAction::CreateSemaphore,
            },
            BufferSetup::Semaphore { cmd, image, memory, image_view, cmd_fence } =>
                SetupStep::Next {
                setup: BufferSetup::ImportFence {
                    cmd,
                    image,
                    memory,
                    image_view,
                    cmd_fence,
                    semaphore: made,
                },
                action: SetupAction::CreateImportFence,
            },
            BufferSetup::ImportFence { cmd, image, memory, image_view, cmd_fence, semaphore } =>
                SetupStep::Finished(
                VulkanBuffer {
                    memory,
                    image,
                    image_view,
                    fence: made,
                    semaphore,
                    cmd,
                    cmd_fence,
                    size: plan.size,
                },
            ),
        }
    }

    /// Why the making of a buffer ends with the event, where it does.
    pub open spec fn aborts(event: SetupEvent) -> Option<Abort> {
        match event {
            SetupEvent::Failed => Some(Abort::Failed),
            SetupEvent::Requirements { image_kinds, fd_kinds, .. } => if image_kinds & fd_kinds
                == 0 {
                Some(Abort::UnsupportedDmaMemory)
            } else {
                None
            },
            _ => None,
        }
    }

    /// What has to be released where the current step fails.
    fn to_release(&self) -> (r: Vec<Release>)
        ensures
            r@ == self.released(),
    {
        let r: Vec<Release> = match *self {
            BufferSetup::CommandBuffer { .. } => Vec::new(),
            BufferSetup::Image { cmd } => vec![Release::CommandBuffer(cmd)],
            BufferSetup::Fd { cmd, image } => vec![
                Release::Image(image),
                Release::CommandBuffer(cmd),
            ],
            BufferSetup::MemoryQuery { cmd, image } | BufferSetup::Memory { cmd, image } => vec![
                Release::Fd,
                Release::Image(image),
                Release::CommandBuffer(cmd),
            ],
            BufferSetup::Bind { cmd, image, memory } => vec![
                Release::Memory(memory),
                Release::Fd,
                Release::Image(image),
                Release::CommandBuffer(cmd),
            ],
            BufferSetup::ImageView { cmd, image, memory } => vec![
                Release::Memory(memory),
                Release::Image(image),
                Release::CommandBuffer(cmd),
            ],
            BufferSetup::Fence { cmd, image, memory, image_view } => vec![
                Release::ImageView(image_view),
                Release::Memory(memory),
                Release::Image(image),
                Release::CommandBuffer(cmd),
            ],
            BufferSetup::Semaphore { cmd, cmd_fence, .. } => vec![
                Release::Fence(cmd_fence),
                Release::CommandBuffer(cmd),
            ],
            BufferSetup::ImportFence { cmd, cmd_fence, semaphore, .. } => vec![
                Release::Semaphore(semaphore),
                Release::Fence(cmd_fence),
                Release::CommandBuffer(cmd),
            ],
        };
        assert(r@ =~= self.released());
        r
    }

    /// What comes after the current step of making a buffer as planned.
    pub fn advance<'a>(self, plan: &'a BufferPlan, event: SetupEvent) -> (r: SetupStep<'a>)
        requires
            self.awaits(event),
        ensures
            match BufferSetup::aborts(event) {
                Some(why) => {
                    &&& r matches SetupStep::Aborted { reason, release }
                    &&& reason == why
                    &&& release@ == self.released()
                },
                None => r == self.continued(plan, event),
            },
    {
        let (made, size, kinds): (u64, u64, u32) = match event {
            SetupEvent::Failed => {
                return SetupStep::Aborted { reason: Abort::Failed, release: self.to_release() };
            },
            SetupEvent::Created(handle) => (handle, 0, 0),
            SetupEvent::Done => (0, 0, 0),
            SetupEvent::Requirements { size, image_kinds, fd_kinds } => {
                let kinds: u32 = image_kinds & fd_kinds;
                if kinds == 0 {
                    return SetupStep::Aborted {
                        reason: Abort::UnsupportedDmaMemory,
                        release: self.to_release(),
                    };
                }
                (0, size, kinds)
            },
        };
        let (setup, action) = match self {
            BufferSetup::CommandBuffer { pool } => (
                BufferSetup::Image { cmd: CommandBuffer { pool, handle: made } },
                SetupAction::CreateImage { request: &plan.image },
            ),
            BufferSetup::Image { cmd } => (
                BufferSetup::Fd { cmd, image: made },
                SetupAction::ExportFd,
            ),
            BufferSetup::Fd { cmd, image } => (
                BufferSetup::MemoryQuery { cmd, image },
                SetupAction::QueryMemory { image },
            ),
            BufferSetup::MemoryQuery { cmd, image } => (
                BufferSetup::Memory { cmd, image },
                // The first kind that goes with both.
                SetupAction::AllocateMemory { image, size, kind: kinds.trailing_zeros() },
            ),
            BufferSetup::Memory { cmd, image } => (
                BufferSetup::Bind { cmd, image, memory: made },
                SetupAction::BindMemory { image, memory: made },
            ),
            BufferSetup::Bind { cmd, image, memory } => (
                BufferSetup::ImageView { cmd, image, memory },
                SetupAction::CreateImageView(ViewRequest::new(image, plan.image.format)),
            ),
            BufferSetup::ImageView { cmd, image, memory } => (
                BufferSetup::Fence { cmd, image, memory, image_view: made },
                SetupAction::CreateFence { signalled: true },
            ),
            BufferSetup::Fence { cmd, image, memory, image_view } => (
                BufferSetup::Semaphore { cmd, image, memory, image_view, cmd_fence: made },
                SetupAction::CreateSemaphore,
            ),
            BufferSetup::Semaphore { cmd, image, memory, image_view, cmd_fence } => (
                BufferSetup::ImportFence {
                    cmd,
                    image,
                    memory,
                    image_view,
                    cmd_fence,
                    semaphore: made,
                },
                SetupAction::CreateImportFence,
            ),
            BufferSetup::ImportFence { cmd, image, memory, image_view, cmd_fence, semaphore } => {
                return SetupStep::Finished(
                    VulkanBuffer {
                        memory,
                        image,
                        image_view,
                        fence: made,
                        semaphore,
                        cmd,
                        cmd_fence,
                        size: plan.size,
                    },
                );
            },
        };
        SetupStep::Next { setup, action }
    }
}

impl Vulkan {
    /// What the buffer object is to be made, and the first step of making it.
    pub fn new_buffer(&self, drm: &DrmState, object: &ObjectLayout) -> (r: (
        BufferPlan,
        BufferSetup,
        SetupAction<'static>,
    ))
        requires
            utils::vk_format_of(drm.format.0) is Some,
        ensures
            r.0.makes(*drm, *object),
            r.1 == (BufferSetup::CommandBuffer { pool: self.pool }),
            r.2 == (SetupAction::AllocateCommandBuffer { pool: self.pool }),
    {
        let format: i32 = utils::Format(drm.format.fourcc()).vk();
        let (w, h) = drm.mode.size();
        let plan = BufferPlan {
            image: ImageRequest::new(format, object),
            size: (w as u32, h as u32),
        };
        (
            plan,
            BufferSetup::CommandBuffer { pool: self.pool },
            SetupAction::AllocateCommandBuffer { pool: self.pool },
        )
    }
}

impl VulkanBuffer {
    /// What is released when the buffer is given up, in this order. The
    /// semaphore and the fence that signals the end of the scanout release
    /// themselves.
    pub open spec fn given_up(self) -> Seq<Release> {
        seq![
            Release::Fence(self.cmd_fence),
            Release::CommandBuffer(self.cmd),
            Release::ImageView(self.image_view),
            Release::Image(self.image),
            Release::Memory(self.memory),
        ]
    }

    /// Gives the buffer up: all of this has to be released, in this order.
    pub fn drop(self) -> (r: Vec<Release>)
        ensures
            r@ == self.given_up(),
    {
        let r: Vec<Release> = vec![
            Release::Fence(self.cmd_fence),
            Release::CommandBuffer(self.cmd),
            Release::ImageView(self.image_view),
            Release::Image(self.image),
            Release::Memory(self.memory),
        ];
        assert(r@ =~= self.given_up());
        r
    }

    /// What handing a fence to the buffer comes to, given what the device
    /// answered to importing it into [`VulkanBuffer::fence`].
    pub fn import_sync(&self, imported: Result<(), i32>) -> (r: Result<(), VulkanError>)
        ensures
            r == (match imported {
                Ok(()) => Ok::<(), VulkanError>(()),
                Err(code) => Err(VulkanError::Vulkan(code)),
            }),
    {
        match imported {
            Ok(()) => Ok(()),
            Err(code) => Err(VulkanError::Vulkan(code)),
        }
    }

    /// What getting a fence of the buffer comes to, given what the device answered
    /// to exporting [`VulkanBuffer::semaphore`]. There is none where the buffer is
    /// already drawn.
    pub fn export_sync<F>(&self, exported: Result<Option<F>, i32>) -> (r: Result<
        Option<F>,
        VulkanError,
    >)
        ensures
            r == (match exported {
                Ok(fence) => Ok::<Option<F>, VulkanError>(fence),
                Err(code) => Err(VulkanError::Vulkan(code)),
            }),
    {
        match exported {
            Ok(fence) => Ok(fence),
            Err(code) => Err(VulkanError::Vulkan(code)),
        }
    }
}

/// What a step that went well acquired.
pub open spec fn acquired(setup: BufferSetup, event: SetupEvent) -> Seq<Release> {
    let made = event->Created_0;
    match setup {
        BufferSetup::CommandBuffer { pool } => seq![
            Release::CommandBuffer(CommandBuffer { pool, handle: made }),
        ],
        BufferSetup::Image { .. } => seq![Release::Image(made)],
        BufferSetup::Fd { .. } => seq![Release::Fd],
        BufferSetup::Memory { .. } => seq![Release::Memory(made)],
        BufferSetup::ImageView { .. } => seq![Release::ImageView(made)],
        BufferSetup::Fence { .. } => seq![Release::Fence(made)],
        BufferSetup::Semaphore { .. } => seq![Release::Semaphore(made)],
        _ => seq![],
    }
}

/// A step that goes well loses nothing: what it acquires comes on top of what
/// is held. Only the file descriptor leaves, when Vulkan has taken it over.
pub proof fn steps_lose_nothing(setup: BufferSetup, plan: BufferPlan, event: SetupEvent)
    requires
        setup.awaits(event),
        BufferSetup::aborts(event) is None,
        !(setup is ImportFence),
    ensures
        ({
            let held = if setup is Bind {
                setup.held().remove(1)
            } else {
                setup.held()
            };
            &&& setup.continued(&plan, event) matches SetupStep::Next { setup: next, .. }
            &&& next.held() == acquired(setup, event) + held
            &&& setup is Bind ==> setup.held()[1] == Release::Fd
        }),
{
}

/// Whoever does what is asked for, and tells what came of it, tells what is
/// awaited: from the first step on, and after each step.
pub proof fn actions_lead_to_what_is_awaited(
    vulkan: Vulkan,
    setup: BufferSetup,
    plan: BufferPlan,
    event: SetupEvent,
    answer: SetupEvent,
)
    ensures
        (BufferSetup::CommandBuffer { pool: vulkan.pool }).awaits(answer) == (SetupAction::AllocateCommandBuffer {
            pool: vulkan.pool,
        }).leads_to(answer),
        match setup.continued(&plan, event) {
            SetupStep::Next { setup: next, action } => next.awaits(answer) == action.leads_to(
                answer,
            ),
            _ => true,
        },
{
}

/// The making of a buffer ends: each step that goes well leaves one step less,
/// and the last one gives the buffer.
pub proof fn making_a_buffer_ends(setup: BufferSetup, plan: BufferPlan, event: SetupEvent)
    ensures
        match setup.continued(&plan, event) {
            SetupStep::Next { setup: next, .. } => next.steps_left() + 1 == setup.steps_left(),
            SetupStep::Finished(_) => setup.steps_left() == 1,
            SetupStep::Aborted { .. } => false,
        },
{
}

/// Where a step fails before the buffer is put together, all that is held is
/// released, what was acquired last first.
pub proof fn failure_releases_all(setup: BufferSetup)
    requires
        !(setup is Semaphore),
        !(setup is ImportFence),
    ensures
        setup.released() == setup.held(),
{
}

/// A finished buffer holds all that its making acquired: giving it up releases
/// each of these things once, but for the semaphore, which releases itself. So
/// nothing that was made is lost, and nothing is released twice.
pub proof fn buffers_own_what_was_acquired(setup: BufferSetup, plan: BufferPlan, event: SetupEvent)
    requires
        setup is ImportFence,
        event is Created,
    ensures
        ({
            &&& setup.continued(&plan, event) matches SetupStep::Finished(buffer)
            &&& buffer.given_up().push(Release::Semaphore(buffer.semaphore)).to_multiset()
                == setup.held().to_multiset()
            &&& buffer.given_up().no_duplicates()
        }),
{
    broadcast use vstd::seq_lib::group_to_multiset_ensures;

    if let SetupStep::Finished(buffer) = setup.continued(&plan, event) {
        let fence = Release::Fence(buffer.cmd_fence);
        let cmd = Release::CommandBuffer(buffer.cmd);
        let view = Release::ImageView(buffer.image_view);
        let image = Release::Image(buffer.image);
        let memory = Release::Memory(buffer.memory);
        let semaphore = Release::Semaphore(buffer.semaphore);
        let none = Seq::<Release>::empty();
        let owned = none.push(fence).push(cmd).push(view).push(image).push(memory).push(semaphore);
        let held = none.push(semaphore).push(fence).push(view).push(memory).push(image).push(cmd);
        assert(buffer.given_up().push(semaphore) =~= owned);
        assert(setup.held() =~= held);
        assert(owned.to_multiset() =~= held.to_multiset());
    }
}

/// The image is made as planned, its view has the format of the image and shows
/// that very image, and the fence of the commands is signalled at first.
pub proof fn buffers_are_made_as_planned(setup: BufferSetup, plan: BufferPlan, event: SetupEvent)
    ensures
        match setup.continued(&plan, event) {
            SetupStep::Next { setup: next, action } => match action {
                SetupAction::CreateImage { request } => *request == plan.image,
                SetupAction::CreateImageView(view) => {
                    &&& view.format == plan.image.format
                    &&& next matches BufferSetup::ImageView { image, .. } && view.image == image
                },
                SetupAction::CreateFence { signalled } => signalled,
                _ => true,
            },
            SetupStep::Finished(buffer) => buffer.size == plan.size,
            SetupStep::Aborted { .. } => false,
        },
{
}

/// When a buffer is given up, its view is released before its image, and its
/// image before its memory, each of them once.
pub proof fn views_go_before_images_before_memory(buffer: VulkanBuffer)
    ensures
        ({
            let released = buffer.given_up();
            &&& released.no_duplicates()
            &&& released.index_of(Release::ImageView(buffer.image_view)) < released.index_of(
                Release::Image(buffer.image),
            )
            &&& released.index_of(Release::Image(buffer.image)) < released.index_of(
                Release::Memory(buffer.memory),
            )
        }),
{
    let released = buffer.given_up();
    assert(released[2] == Release::ImageView(buffer.image_view));
    assert(released[3] == Release::Image(buffer.image));
    assert(released[4] == Release::Memory(buffer.memory));
    assert(released.no_duplicates());
}

/// The kind of memory that is taken goes with both the image and the file
/// descriptor, and no lower one does.
pub proof fn memory_kind_is_the_first_common_one(
    setup: BufferSetup,
    plan: BufferPlan,
    size: u64,
    image_kinds: u32,
    fd_kinds: u32,
)
    requires
        setup is MemoryQuery,
        image_kinds & fd_kinds != 0,
    ensures
        ({
            let event = SetupEvent::Requirements { size, image_kinds, fd_kinds };
            &&& setup.continued(&plan, event) matches SetupStep::Next { action, .. }
            &&& action matches SetupAction::AllocateMemory { kind, .. }
            &&& kind < 32
            &&& (image_kinds >> kind) & 1 == 1
            &&& (fd_kinds >> kind) & 1 == 1
            &&& forall|lower: u32|
                #![trigger image_kinds >> lower]
                lower < kind ==> (image_kinds >> lower) & 1 == 0 || (fd_kinds >> lower) & 1 == 0
        }),
{
    broadcast use vstd::std_specs::bits::axiom_u32_trailing_zeros;

    let kinds = image_kinds & fd_kinds;
    let kind = kinds.trailing_zeros();
    assert(((image_kinds & fd_kinds) >> kind) & 1 == 1);
    assert(((image_kinds & fd_kinds) >> kind) & 1 == 1 ==> (image_kinds >> kind) & 1 == 1 && (
    fd_kinds >> kind) & 1 == 1) by (bit_vector);
    assert forall|lower: u32|
        #![trigger image_kinds >> lower]
        lower < kind implies (image_kinds >> lower) & 1 == 0 || (fd_kinds >> lower) & 1 == 0 by {
        assert((kinds >> lower) & 1 == 0);
        assert(((image_kinds & fd_kinds) >> lower) & 1 == 0 ==> (image_kinds >> lower) & 1 == 0 || (
        fd_kinds >> lower) & 1 == 0) by (bit_vector);
    }
}

impl Abort {
    /// The error to return. `failure` is the error of the step that failed.
    pub fn error(self, failure: VulkanError) -> (r: VulkanError)
        ensures
            r == (match self {
                Abort::Failed => failure,
                Abort::UnsupportedDmaMemory => VulkanError::UnsupportedDmaMemory,
            }),
    {
        match self {
            Abort::Failed => failure,
            Abort::UnsupportedDmaMemory => VulkanError::UnsupportedDmaMemory,
        }
    }
}

/// The planes of an image lie where those of its buffer object do.
pub proof fn planes_lie_where_the_object_has_them(object: ObjectLayout, plane: int)
    ensures
        object.plane_layouts().len() == object.planes@.len(),
        0 <= plane < object.planes@.len() ==> {
            &&& object.plane_layouts()[plane].offset == object.planes@[plane].0
            &&& object.plane_layouts()[plane].row_pitch == object.planes@[plane].1
        },
{
}

/// An image that is asked for has the size, the modifier and the planes of the buffer
/// object and the format that is asked for. It has two dimensions, one level, one layer
/// and one sample, is drawn to by one queue family, holds nothing yet, and lies
/// in memory that a DMA-BUF shares, as a modifier tells.
pub proof fn images_are_like_their_object(
    request: ImageRequest,
    format: i32,
    object: ObjectLayout,
    plane: int,
)
    requires
        request.images(format, object),
    ensures
        request.format == format,
        request.width == object.size.0,
        request.height == object.size.1,
        request.modifier == object.modifier,
        request.planes@.len() == object.planes@.len(),
        0 <= plane < object.planes@.len() ==> {
            &&& request.planes@[plane].offset == object.planes@[plane].0
            &&& request.planes@[plane].row_pitch == object.planes@[plane].1
        },
        request.image_type == 1 && request.depth == 1,
        request.mip_levels == 1 && request.array_layers == 1 && request.samples == 1,
        request.tiling == 1_000_158_000 && request.usage == 16,
        request.sharing_mode == 0 && request.initial_layout == 0,
        request.handle_types == 512,
{
}

/// A view shows the colours of all of its image: its only level and its only layer.
pub proof fn views_show_all_of_their_image(image: u64, format: i32)
    ensures
        ({
            let view = ViewRequest::whole(image, format);
            &&& view.image == image && view.format == format
            &&& view.view_type == 1 && view.aspect == 1
            &&& view.base_level == 0 && view.levels == 1
            &&& view.base_layer == 0 && view.layers == 1
        }),
{
}

/// A buffer is planned for the mode and the format of the output.
pub proof fn plans_fit_the_output(plan: BufferPlan, drm: DrmState, object: ObjectLayout)
    requires
        plan.makes(drm, object),
    ensures
        plan.size.0 == drm.mode.hdisplay,
        plan.size.1 == drm.mode.vdisplay,
        utils::vk_format_of(drm.format.0) == Some(plan.image.format),
        plan.image.images(plan.image.format, object),
{
}

/// The making of a buffer ends early where a step fails, and where no kind of memory
/// goes with both the image and the file descriptor: none stands at the same binary
/// digit of both. Nothing else ends it.
pub proof fn only_failures_and_unfit_memory_end_the_making(
    size: u64,
    image_kinds: u32,
    fd_kinds: u32,
    made: u64,
)
    ensures
        BufferSetup::aborts(SetupEvent::Failed) == Some(Abort::Failed),
        BufferSetup::aborts(SetupEvent::Created(made)) is None,
        BufferSetup::aborts(SetupEvent::Done) is None,
        ({
            let aborts = BufferSetup::aborts(
                SetupEvent::Requirements { size, image_kinds, fd_kinds },
            );
            &&& aborts is None || aborts == Some(Abort::UnsupportedDmaMemory)
            &&& aborts is Some <==> forall|kind: u32|
                kind < 32 ==> (#[trigger] (image_kinds >> kind)) % 2 == 0 || (fd_kinds >> kind) % 2
                    == 0
        }),
{
    let common = image_kinds & fd_kinds;
    if common == 0 {
        assert forall|kind: u32| kind < 32 implies (#[trigger] (image_kinds >> kind)) % 2 == 0 || (
        fd_kinds >> kind) % 2 == 0 by {
            assert((image_kinds >> kind) % 2 == 0 || (fd_kinds >> kind) % 2 == 0) by (bit_vector)
                requires
                    image_kinds & fd_kinds == 0,
                    kind < 32,
            ;
        }
    } else {
        broadcast use vstd::std_specs::bits::axiom_u32_trailing_zeros;

        let kind = common.trailing_zeros();
        assert(kind < 32);
        assert(((image_kinds & fd_kinds) >> kind) & 1 == 1);
        assert((image_kinds >> kind) % 2 == 1 && (fd_kinds >> kind) % 2 == 1) by (bit_vector)
            requires
                ((image_kinds & fd_kinds) >> kind) & 1 == 1,
        ;
    }
}

/// What a step is waited for to bring: a handle where something is made, and no
/// handle where the file descriptor is got, memory is bound or asked about. Any step
/// can fail.
pub proof fn each_step_awaits_its_own_outcome(
    setup: BufferSetup,
    size: u64,
    image_kinds: u32,
    fd_kinds: u32,
    made: u64,
)
    ensures
        setup.awaits(SetupEvent::Failed),
        setup.awaits(SetupEvent::Done) <==> setup.steps_left() == 8 || setup.steps_left() == 5,
        setup.awaits(SetupEvent::Requirements { size, image_kinds, fd_kinds })
            <==> setup.steps_left() == 7,
        setup.awaits(SetupEvent::Created(made)) <==> !(setup.steps_left() == 8
            || setup.steps_left() == 7 || setup.steps_left() == 5),
{
}

/// The step that follows another one that went well.
pub open spec fn next_setup(setup: BufferSetup, plan: &BufferPlan, event: SetupEvent) -> BufferSetup {
    setup.continued(plan, event)->setup
}

/// What has to be done for the step that follows another one that went well.
pub open spec fn next_action(setup: BufferSetup, plan: &BufferPlan, event: SetupEvent) -> SetupAction<
    '_,
> {
    setup.continued(plan, event)->action
}

/// Where all goes well, ten steps make a buffer of exactly the handles that were made on
/// the way: the image is made as planned, its memory is asked for and allocated with the
/// size that the image needs and bound to it, and its view is made of it. Where a step
/// fails, what was acquired before is released, what was acquired last first, but for the
/// image, its view and its memory once all three are there and the fence is too.
pub proof fn ten_steps_make_a_buffer(
    plan: &BufferPlan,
    pool: u64,
    cmd: u64,
    image: u64,
    requirements: SetupEvent,
    memory: u64,
    view: u64,
    cmd_fence: u64,
    semaphore: u64,
    fence: u64,
)
    requires
        requirements is Requirements,
    ensures
        ({
            let commands = Release::CommandBuffer(CommandBuffer { pool, handle: cmd });
            let s0 = BufferSetup::CommandBuffer { pool };
            let s1 = next_setup(s0, plan, SetupEvent::Created(cmd));
            let s2 = next_setup(s1, plan, SetupEvent::Created(image));
            let s3 = next_setup(s2, plan, SetupEvent::Done);
            let s4 = next_setup(s3, plan, requirements);
            let s5 = next_setup(s4, plan, SetupEvent::Created(memory));
            let s6 = next_setup(s5, plan, SetupEvent::Done);
            let s7 = next_setup(s6, plan, SetupEvent::Created(view));
            let s8 = next_setup(s7, plan, SetupEvent::Created(cmd_fence));
            let s9 = next_setup(s8, plan, SetupEvent::Created(semaphore));
            let end = s9.continued(plan, SetupEvent::Created(fence));
            &&& s0.released() == Seq::<Release>::empty()
            &&& s1.released() == seq![commands]
            &&& s2.released() == seq![Release::Image(image), commands]
            &&& s3.released() == seq![Release::Fd, Release::Image(image), commands]
            &&& s4.released() == seq![Release::Fd, Release::Image(image), commands]
            &&& s5.released() == seq![
                Release::Memory(memory),
                Release::Fd,
                Release::Image(image),
                commands,
            ]
            &&& s6.released() == seq![Release::Memory(memory), Release::Image(image), commands]
            &&& s7.released() == seq![
                Release::ImageView(view),
                Release::Memory(memory),
                Release::Image(image),
                commands,
            ]
            &&& s8.released() == seq![Release::Fence(cmd_fence), commands]
            &&& s9.released() == seq![
                Release::Semaphore(semaphore),
                Release::Fence(cmd_fence),
                commands,
            ]
            &&& next_action(s0, plan, SetupEvent::Created(cmd)) == (SetupAction::CreateImage {
                request: &plan.image,
            })
            &&& next_action(s1, plan, SetupEvent::Created(image)) == SetupAction::ExportFd
            &&& next_action(s2, plan, SetupEvent::Done) == (SetupAction::QueryMemory { image })
            &&& next_action(s3, plan, requirements) is AllocateMemory
            &&& next_action(s3, plan, requirements)->AllocateMemory_image == image
            &&& next_action(s3, plan, requirements)->AllocateMemory_size == requirements->size
            &&& next_action(s4, plan, SetupEvent::Created(memory)) == (SetupAction::BindMemory {
                image,
                memory,
            })
            &&& next_action(s5, plan, SetupEvent::Done) is CreateImageView
            &&& next_action(s5, plan, SetupEvent::Done)->CreateImageView_0.image == image
            &&& next_action(s5, plan, SetupEvent::Done)->CreateImageView_0.format
                == plan.image.format
            &&& next_action(s6, plan, SetupEvent::Created(view)) == (SetupAction::CreateFence {
                signalled: true,
            })
            &&& next_action(s7, plan, SetupEvent::Created(cmd_fence))
                == SetupAction::CreateSemaphore
            &&& next_action(s8, plan, SetupEvent::Created(semaphore))
                == SetupAction::CreateImportFence
            &&& end == SetupStep::Finished(
                VulkanBuffer {
                    memory,
                    image,
                    image_view: view,
                    fence,
                    semaphore,
                    cmd: CommandBuffer { pool, handle: cmd },
                    cmd_fence,
                    size: plan.size,
                },
            )
        }),
{
}

/// A buffer that is given up releases its command fence, its commands, its view, its
/// image and its memory, in this order, and nothing else.
pub proof fn buffers_release_what_they_hold(buffer: VulkanBuffer, release: Release)
    ensures
        ({
            let released = buffer.given_up();
            &&& released.len() == 5
            &&& released[0] == Release::Fence(buffer.cmd_fence)
            &&& released[1] == Release::CommandBuffer(buffer.cmd)
            &&& released.contains(release) <==> match release {
                Release::Fence(handle) => handle == buffer.cmd_fence,
                Release::CommandBuffer(cmd) => cmd == buffer.cmd,
                Release::ImageView(handle) => handle == buffer.image_view,
                Release::Image(handle) => handle == buffer.image,
                Release::Memory(handle) => handle == buffer.memory,
                Release::Fd | Release::Semaphore(_) => false,
            }
        }),
{
    let released = buffer.given_up();
    assert(released[2] == Release::ImageView(buffer.image_view));
    assert(released[3] == Release::Image(buffer.image));
    assert(released[4] == Release::Memory(buffer.memory));
}

} // verus!
