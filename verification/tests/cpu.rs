use compositor::cpu::{
    import_sync_file, next_action, Cpu, CpuAction, CpuBuffer, CpuEvent, ImportAction, ImportEvent,
    SyncobjHandle, WaitRequest, NAME,
};
use compositor::drmx::fourcc::XRGB8888;
use compositor::drmx::Format;
use compositor::skia::ColorType;

fn buffer(fence: Option<u32>) -> CpuBuffer<&'static str, u32> {
    CpuBuffer { bo: "bo", format: Format(XRGB8888), fence }
}

const WAIT: CpuAction =
    CpuAction::Wait(WaitRequest { timeout_nsec: 500_000, wait_all: true, wait_for_submit: true });

#[test]
fn a_buffer_without_a_fence_is_drawn_at_once() {
    let cpu = Cpu::new("card");
    assert_eq!(cpu.card, "card");
    assert_eq!(cpu.render(&buffer(None), CpuEvent::Start), CpuAction::Draw);
}

#[test]
fn a_buffer_with_a_fence_is_waited_for() {
    let cpu = Cpu::new(());
    assert_eq!(cpu.render(&buffer(Some(1)), CpuEvent::Start), WAIT);
    assert_eq!(cpu.render(&buffer(Some(1)), CpuEvent::Signalled), CpuAction::Draw);
}

#[test]
fn running_out_of_time_is_no_error() {
    let cpu = Cpu::new(());
    let timeout = rustix::io::Errno::TIME.raw_os_error();
    let failed = |raw_os_error| CpuEvent::WaitFailed { raw_os_error };
    assert_eq!(cpu.render(&buffer(Some(1)), failed(Some(timeout))), CpuAction::Pending);
    assert_eq!(cpu.render(&buffer(Some(1)), failed(Some(timeout + 1))), CpuAction::Fail);
    assert_eq!(cpu.render(&buffer(Some(1)), failed(None)), CpuAction::Fail);
    assert_eq!(next_action(true, 5, failed(Some(5))), CpuAction::Pending);
    assert_eq!(next_action(true, 6, failed(Some(5))), CpuAction::Fail);
}

#[test]
fn buffers_are_shown_and_written_to() {
    let flags = Cpu::<()>::buffer_flags();
    assert!(flags.scanout && flags.linear && flags.write && !flags.rendering);
    assert_eq!(NAME, "CPU");
}

#[test]
fn nothing_is_offered_but_plain_rows() {
    assert!(Cpu::new(()).modifiers(Format(XRGB8888)).is_empty());
}

#[test]
fn a_new_fence_replaces_the_old_one() {
    let mut shown = buffer(None);
    assert_eq!(shown.import_sync::<&str>(Ok(1)), Ok(None));
    assert_eq!(shown.import_sync::<&str>(Ok(2)), Ok(Some(1)));
    assert_eq!(shown.fence, Some(2));
    assert_eq!(shown.import_sync(Err("no sync object")), Err("no sync object"));
    assert_eq!(shown.fence, Some(2));
    assert_eq!(shown.bo, "bo");
    assert_eq!(shown.export_sync::<i32>(), None);
}

#[test]
fn a_frame_is_drawn_on_the_mapped_buffer() {
    let surface = buffer(None).surface(1920, 1080, 7680, 120);
    assert_eq!(surface.size, (1920, 1080));
    assert_eq!(surface.color_type, ColorType::BGRA8888);
    assert_eq!(surface.row_bytes, 7680);
    assert_eq!(surface.label, "120");
    assert_eq!(buffer(None).surface(u32::MAX, 1, 4, 0).size, (-1, 1));
    assert_eq!(buffer(None).surface(1, 1, 4, 0).label, "0");
}

#[test]
fn a_sync_file_is_imported_into_a_new_sync_object() {
    assert_eq!(import_sync_file(9, ImportEvent::Start), ImportAction::Create { signalled: false });
    assert_eq!(
        import_sync_file(9, ImportEvent::Created { sync: 4 }),
        ImportAction::Import(SyncobjHandle { handle: 4, flags: 1, fd: 9, pad: 0, point: 0 })
    );
    assert_eq!(
        import_sync_file(9, ImportEvent::Imported { sync: 4 }),
        ImportAction::Finish { sync: 4 }
    );
}

#[test]
fn a_sync_object_that_stays_empty_is_destroyed() {
    assert_eq!(import_sync_file(9, ImportEvent::CreateFailed), ImportAction::Fail);
    assert_eq!(
        import_sync_file(9, ImportEvent::ImportFailed { sync: 4 }),
        ImportAction::DestroyAndFail { sync: 4 }
    );
}
