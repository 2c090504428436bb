//! Drawing without a GPU, into buffers that the processor can write to.

use crate::drmx::Format;
use crate::scanout::{BufferFlags, DrmState};
use crate::skia::ColorType;
use crate::text;
use crate::text::with_number;
use std::collections::HashSet;
use vstd::prelude::*;

verus! {

broadcast use vstd::std_specs::hash::group_hash_axioms;

/// The name of the renderer.
pub const NAME: &'static str = "CPU";

/// How long to wait for a buffer that is still shown.
pub const TIMEOUT_NSEC: i64 = 500_000;

/// A renderer that draws with the processor, on buffers of `card`.
#[derive(Debug)]
pub struct Cpu<C> {
    pub card: C,
}

/// A buffer that is drawn to. `O` is the buffer as the device hands it out, `S`
/// is what signals that the buffer is no longer shown.
#[derive(Debug)]
pub struct CpuBuffer<O, S> {
    pub bo: O,
    pub format: Format,
    pub fence: Option<S>,
}

/// How to wait for a buffer that is still shown.
#[derive(Debug, Clone, Copy, PartialEq, Eq, Structural)]
pub struct WaitRequest {
    pub timeout_nsec: i64,
    pub wait_all: bool,
    pub wait_for_submit: bool,
}

/// What is known of whether a buffer is free to be drawn to.
#[derive(Debug, Clone, Copy, PartialEq, Eq)]
pub enum CpuEvent {
    /// Nothing yet.
    Start,
    /// The fence of the buffer signalled in time.
    Signalled,
    /// Waiting failed, with this error number where it has one.
    WaitFailed { raw_os_error: Option<i32> },
}

/// What to do next to draw a frame.
#[derive(Debug, Clone, Copy, PartialEq, Eq, Structural)]
pub enum CpuAction {
    /// Wait for the fence of the buffer.
    Wait(WaitRequest),
    Draw,
    /// The buffer is still shown: try again later.
    Pending,
    /// Return the error of waiting.
    Fail,
}

/// What follows an event. `timeout` is the error number of a wait that ran out
/// of time.
pub open spec fn render_action(fenced: bool, timeout: i32, event: CpuEvent) -> CpuAction {
    match event {
        CpuEvent::Start => if fenced {
            CpuAction::Wait(
                WaitRequest { timeout_nsec: TIMEOUT_NSEC, wait_all: true, wait_for_submit: true },
            )
        } else {
            CpuAction::Draw
        },
        CpuEvent::Signalled => CpuAction::Draw,
        CpuEvent::WaitFailed { raw_os_error } => if raw_os_error == Some(timeout) {
            CpuAction::Pending
        } else {
            CpuAction::Fail
        },
    }
}

/// Whether a number is that of the error `ETIME` on Linux: 73 on SPARC, and 62 on
/// all other machines.
pub open spec fn is_timeout(number: i32) -> bool {
    number == 62 || number == 73
}

/// Calls `Errno::raw_os_error` of the `rustix` crate on `Errno::TIME`, and
/// claims that it gives a number that Linux has for that error. Which one is left
/// unsaid: it is the machine's own.
#[verifier::external_body]
fn timeout_errno() -> (r: i32)
    ensures
        is_timeout(r),
{
    rustix::io::Errno::TIME.raw_os_error()
}

/// The next step of drawing a frame into a buffer that has a fence or not.
pub fn next_action(fenced: bool, timeout: i32, event: CpuEvent) -> (r: CpuAction)
    ensures
        r == render_action(fenced, timeout, event),
{
    match event {
        CpuEvent::Start => if fenced {
            CpuAction::Wait(
                WaitRequest { timeout_nsec: TIMEOUT_NSEC, wait_all: true, wait_for_submit: true },
            )
        } else {
            CpuAction::Draw
        },
        CpuEvent::Signalled => CpuAction::Draw,
        CpuEvent::WaitFailed { raw_os_error } => match raw_os_error {
            Some(code) => if code == timeout {
                CpuAction::Pending
            } else {
                CpuAction::Fail
            },
            None => CpuAction::Fail,
        },
    }
}

/// What a frame is drawn on, and what is written on it.
#[derive(Debug, PartialEq, Eq)]
pub struct Surface {
    pub size: (i32, i32),
    pub color_type: ColorType,
    pub row_bytes: usize,
    /// The number of the frame.
    pub label: String,
}

impl<C> Cpu<C> {
    pub fn new(card: C) -> (r: Self)
        ensures
            r.card == card,
    {
        Cpu { card }
    }

    /// What buffers have to be fit for: to be shown and written to, row by row.
    pub fn buffer_flags() -> (r: BufferFlags)
        ensures
            r == (BufferFlags { scanout: true, rendering: false, linear: true, write: true }),
    {
        BufferFlags { scanout: true, rendering: false, linear: true, write: true }
    }

    /// No modifiers are offered: buffers are laid out row by row.
    pub fn modifiers(&self, _format: Format) -> (r: HashSet<u64>)
        ensures
            r@ == Set::<u64>::empty(),
    {
        HashSet::new()
    }

    /// A buffer that was not shown yet.
    pub fn new_buffer<O, S>(&self, drm: &DrmState, bo: O) -> (r: CpuBuffer<O, S>)
        ensures
            r.bo == bo,
            r.format == drm.format,
            r.fence is None,
    {
        CpuBuffer { bo, format: drm.format, fence: None }
    }

    /// The next step of drawing a frame. A buffer is drawn to when it is no
    /// longer shown.
    pub fn render<O, S>(&self, buffer: &CpuBuffer<O, S>, event: CpuEvent) -> (r: CpuAction)
        ensures
            exists|timeout: i32|
                is_timeout(timeout) && r == #[trigger] render_action(
                    buffer.fence is Some,
                    timeout,
                    event,
                ),
    {
        next_action(buffer.fence.is_some(), timeout_errno(), event)
    }
}

impl<O, S> CpuBuffer<O, S> {
    /// Has the buffer wait for the sync object that a fence was imported into,
    /// before it is drawn to again. What it waited for before is handed back, to
    /// be let go. Where the fence could not be imported, the error comes back, and
    /// the buffer waits for what it waited for before.
    pub fn import_sync<E>(&mut self, imported: Result<S, E>) -> (r: Result<Option<S>, E>)
        ensures
            match imported {
                Ok(sync) => {
                    &&& r == Ok::<Option<S>, E>(old(self).fence)
                    &&& final(self).fence == Some(sync)
                },
                Err(e) => {
                    &&& r == Err::<Option<S>, E>(e)
                    &&& final(self).fence == old(self).fence
                },
            },
            final(self).bo == old(self).bo,
            final(self).format == old(self).format,
    {
        match imported {
            Ok(sync) => {
                let previous = self.fence.take();
                self.fence = Some(sync);
                Ok(previous)
            },
            Err(e) => Err(e),
        }
    }

    /// What signals that the buffer is drawn: nothing, for it is drawn by the
    /// time that the frame is done.
    pub fn export_sync<F>(&self) -> (r: Option<F>)
        ensures
            r is None,
    {
        None
    }

    /// What the frame `frame` is drawn on, for a mapped buffer of this size.
    pub fn surface(&self, width: u32, height: u32, stride: u32, frame: usize) -> (r: Surface)
        requires
            crate::drmx::format::color_type_of(self.format.0) is Some,
        ensures
            r.size == (width as i32, height as i32),
            Some(r.color_type) == crate::drmx::format::color_type_of(self.format.0),
            r.row_bytes == stride,
            r.label@ == text::decimal(frame as nat),
    {
        let label = with_number("", frame as u64);
        proof {
            reveal_strlit("");
            assert(label@ =~= text::decimal(frame as nat));
        }
        Surface {
            size: (
                #[verifier::truncate]
                (width as i32),
                #[verifier::truncate]
                (height as i32),
            ),
            color_type: self.format.skia(),
            row_bytes: stride as usize,
            label,
        }
    }
}

/// The flag that says that a file descriptor is that of a sync file.
pub const IMPORT_SYNC_FILE: u32 = 1;

/// What the kernel is told to put a sync file into a sync object.
#[derive(Debug, Clone, Copy, PartialEq, Eq, Structural)]
pub struct SyncobjHandle {
    pub handle: u32,
    pub flags: u32,
    pub fd: i32,
    pub pad: u32,
    pub point: u64,
}

/// What came of a step of importing a sync file.
#[derive(Debug, Clone, Copy, PartialEq, Eq, Structural)]
pub enum ImportEvent {
    Start,
    /// A sync object was made, or could not be made.
    Created { sync: u32 },
    CreateFailed,
    /// The sync file was put into the sync object, or could not be.
    Imported { sync: u32 },
    ImportFailed { sync: u32 },
}

/// What to do next to import a sync file.
#[derive(Debug, Clone, Copy, PartialEq, Eq, Structural)]
pub enum ImportAction {
    /// Make a sync object.
    Create { signalled: bool },
    Import(SyncobjHandle),
    /// The sync object now signals with the sync file.
    Finish { sync: u32 },
    /// Destroy the sync object, and return the error.
    DestroyAndFail { sync: u32 },
    /// Return the error.
    Fail,
}

/// What follows an event of importing the sync file `fd`.
pub open spec fn import_action(fd: i32, event: ImportEvent) -> ImportAction {
    match event {
        ImportEvent::Start => ImportAction::Create { signalled: false },
        ImportEvent::Created { sync } => ImportAction::Import(
            SyncobjHandle { handle: sync, flags: IMPORT_SYNC_FILE, fd, pad: 0, point: 0 },
        ),
        ImportEvent::CreateFailed => ImportAction::Fail,
        ImportEvent::Imported { sync } => ImportAction::Finish { sync },
        ImportEvent::ImportFailed { sync } => ImportAction::DestroyAndFail { sync },
    }
}

/// The next step of importing the sync file `fd`.
pub fn import_sync_file(fd: i32, event: ImportEvent) -> (r: ImportAction)
    ensures
        r == import_action(fd, event),
{
    match event {
        ImportEvent::Start => ImportAction::Create { signalled: false },
        ImportEvent::Created { sync } => ImportAction::Import(
            SyncobjHandle { handle: sync, flags: IMPORT_SYNC_FILE, fd, pad: 0, point: 0 },
        ),
        ImportEvent::CreateFailed => ImportAction::Fail,
        ImportEvent::Imported { sync } => ImportAction::Finish { sync },
        ImportEvent::ImportFailed { sync } => ImportAction::DestroyAndFail { sync },
    }
}

/// A buffer with a fence is drawn to only after the fence signalled. A wait
/// that ran out of time is no error.
pub proof fn drawing_waits_for_the_fence(timeout: i32, event: CpuEvent)
    ensures
        render_action(true, timeout, event) == CpuAction::Draw <==> event == CpuEvent::Signalled,
        render_action(true, timeout, event) == CpuAction::Pending <==> event
            == (CpuEvent::WaitFailed { raw_os_error: Some(timeout) }),
{
}

/// A sync object that was made is filled, and then handed over or destroyed.
pub proof fn sync_objects_are_not_lost(fd: i32, sync: u32)
    ensures
        import_action(fd, ImportEvent::Created { sync }) matches ImportAction::Import(args)
            && args.handle == sync && args.fd == fd,
        import_action(fd, ImportEvent::Imported { sync }) == (ImportAction::Finish { sync }),
        import_action(fd, ImportEvent::ImportFailed { sync }) == (ImportAction::DestroyAndFail {
            sync,
        }),
{
}

/// A buffer that waits for nothing is drawn to at once. One with a fence is waited for
/// half a millisecond, for all that it waits for and for its submission; and an error
/// other than that the time ran out ends the drawing, whether it has a number or not.
pub proof fn buffers_are_waited_for_shortly(
    fenced: bool,
    timeout: i32,
    raw_os_error: Option<i32>,
    event: CpuEvent,
)
    ensures
        ({
            let action = render_action(fenced, timeout, event);
            &&& action == CpuAction::Draw <==> event is Signalled || (event is Start && !fenced)
            &&& action is Wait <==> event is Start && fenced
            &&& action is Wait ==> {
                &&& action->Wait_0.timeout_nsec * 2 == 1_000_000
                &&& action->Wait_0.wait_all
                &&& action->Wait_0.wait_for_submit
            }
            &&& render_action(fenced, timeout, CpuEvent::WaitFailed { raw_os_error })
                == CpuAction::Pending <==> raw_os_error is Some && raw_os_error->0 == timeout
            &&& render_action(fenced, timeout, CpuEvent::WaitFailed { raw_os_error })
                == CpuAction::Fail <==> raw_os_error is None || raw_os_error->0 != timeout
        }),
{
}

/// Where a wait fails with an error that is not that the time ran out on any machine
/// that Linux runs on, or with one without a number, the drawing ends.
pub proof fn other_errors_end_the_drawing(
    fenced: bool,
    raw_os_error: Option<i32>,
    timeout: i32,
)
    requires
        is_timeout(timeout),
    ensures
        ({
            let action = render_action(fenced, timeout, CpuEvent::WaitFailed { raw_os_error });
            &&& raw_os_error is None ==> action == CpuAction::Fail
            &&& raw_os_error is Some && raw_os_error->0 != 62 && raw_os_error->0 != 73 ==> action
                == CpuAction::Fail
            &&& action == CpuAction::Pending || action == CpuAction::Fail
        }),
{
}

/// A sync file is put into a new sync object that is not signalled, as a sync file and
/// as a whole. Where no sync object could be made, there is none to destroy.
pub proof fn sync_files_fill_new_sync_objects(fd: i32, event: ImportEvent)
    ensures
        match import_action(fd, event) {
            ImportAction::Create { signalled } => event is Start && !signalled,
            ImportAction::Import(args) => {
                &&& event == (ImportEvent::Created { sync: args.handle })
                &&& args.fd == fd
                &&& args.flags == 1
                &&& args.pad == 0
                &&& args.point == 0
            },
            ImportAction::Finish { sync } => event == (ImportEvent::Imported { sync }),
            ImportAction::DestroyAndFail { sync } => event == (ImportEvent::ImportFailed { sync }),
            ImportAction::Fail => event is CreateFailed,
        },
{
}

} // verus!
