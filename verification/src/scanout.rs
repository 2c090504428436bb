//! Drawing into a ring of buffers and showing them, one after another.

use crate::drmx::atomic_req::{AtomicReqError, AtomicRequestCache};
use crate::drmx::mode::CrtcState;
use crate::drmx::{Format, Mode};
use crate::format_modifier::DrmFormatParseError;
use crate::utils::Guard;
use std::collections::HashSet;
use vstd::prelude::*;

verus! {

/// The number of buffers that are drawn to in turn.
pub const LEN: usize = 3;

/// The type of an I/O error of std, which is handed on as it is.
#[verifier::external_type_specification]
#[verifier::external_body]
pub struct ExIoError(std::io::Error);

/// Whether something was done, or has to be tried again later.
#[derive(Debug, Clone, Copy, PartialEq, Eq, Structural)]
pub enum Poll {
    Ready,
    Pending,
}

/// A renderer.
///
/// The spec functions say what an implementation claims of its own work. One
/// that does not define them claims nothing.
pub trait Backend: Sized {
    type Error;

    /// The device that buffers are allocated on.
    type Card;

    /// A buffer as the device hands it out.
    type BufferObject;

    type Buffer: BackendBuffer<Error = Self::Error>;

    /// Whether `outcome` can come of opening `card`.
    open spec fn opened(card: Self::Card, outcome: Result<Self, Self::Error>) -> bool {
        true
    }

    /// Whether `modifiers` can be what is offered for `format`.
    open spec fn offered(self, format: Format, modifiers: Set<u64>) -> bool {
        true
    }

    /// Whether `outcome` can come of preparing `bo` to be drawn to.
    open spec fn prepared(
        self,
        drm: DrmState,
        bo: Self::BufferObject,
        outcome: Result<Self::Buffer, Self::Error>,
    ) -> bool {
        true
    }

    /// Whether drawing `frame` into `buffer` can lead to `after` and
    /// `buffer_after`, with `outcome`.
    open spec fn rendered(
        self,
        buffer: Self::Buffer,
        frame: usize,
        after: Self,
        buffer_after: Self::Buffer,
        outcome: Result<Poll, Self::Error>,
    ) -> bool {
        true
    }

    fn new(card: &Self::Card) -> (r: Result<Self, Self::Error>)
        ensures
            Self::opened(*card, r),
    ;

    /// The modifiers that can be drawn to.
    fn modifiers(&self, format: Format) -> (r: HashSet<u64>)
        ensures
            self.offered(format, r@),
    ;

    fn new_buffer(&self, drm: &DrmState, bo: &Self::BufferObject) -> (r: Result<
        Self::Buffer,
        Self::Error,
    >)
        ensures
            self.prepared(*drm, *bo, r),
    ;

    fn render(&mut self, buffer: &mut Self::Buffer, frame: usize) -> (r: Result<Poll, Self::Error>)
        ensures
            old(self).rendered(*old(buffer), frame, *final(self), *final(buffer), r),
    ;
}

/// A buffer that a [`Backend`] draws to.
pub trait BackendBuffer: Sized {
    type Error;

    /// What signals that work on a buffer is done.
    type Fence;

    /// Whether taking over `fence` can lead to `after`, with `outcome`.
    open spec fn imported(
        self,
        fence: Self::Fence,
        after: Self,
        outcome: Result<(), Self::Error>,
    ) -> bool {
        true
    }

    /// Whether handing out a fence can lead to `after`, with `outcome`.
    open spec fn exported(
        self,
        after: Self,
        outcome: Result<Option<Self::Fence>, Self::Error>,
    ) -> bool {
        true
    }

    /// Takes over a fence of DRM, which signals when scanout completes (and the
    /// backend can use this buffer again).
    fn import_sync(&mut self, fence: Self::Fence) -> (r: Result<(), Self::Error>)
        ensures
            old(self).imported(fence, *final(self), r),
    ;

    /// Hands a fence to DRM, which signals when drawing completes (and DRM can
    /// scan this buffer out).
    fn export_sync(&mut self) -> (r: Result<Option<Self::Fence>, Self::Error>)
        ensures
            old(self).exported(*final(self), r),
    ;
}

/// Why an output could not be set up or shown.
#[derive(Debug)]
pub enum ScanoutError<B: Backend> {
    Io(std::io::Error),
    DrmFormat(DrmFormatParseError),
    CannotGetDrmFormats,
    Backend(B::Error),
    Modeset(ModesetError),
}

impl<B: Backend> ScanoutError<B> {
    /// The text that tells a user what is wrong. An error that comes from
    /// elsewhere brings its own text, and has none here.
    pub open spec fn text(self) -> Option<Seq<char>> {
        match self {
            ScanoutError::CannotGetDrmFormats => Some("cannot get supported formats"@),
            ScanoutError::DrmFormat(e) => Some(e.text()),
            _ => None,
        }
    }

    pub fn message(&self) -> (r: Option<String>)
        ensures
            match r {
                Some(message) => self.text() == Some(message@),
                None => self.text() is None,
            },
    {
        match self {
            ScanoutError::CannotGetDrmFormats => Some("cannot get supported formats".to_owned()),
            ScanoutError::DrmFormat(e) => Some(e.message()),
            _ => None,
        }
    }
}

/// Why a request to DRM failed.
#[derive(Debug)]
pub enum ModesetError {
    Io(std::io::Error),
    AtomicReq(AtomicReqError),
}

impl<B: Backend> From<std::io::Error> for ScanoutError<B> {
    fn from(value: std::io::Error) -> (r: Self) {
        ScanoutError::Io(value)
    }
}

impl<B: Backend> vstd::std_specs::convert::FromSpecImpl<std::io::Error> for ScanoutError<B> {
    open spec fn obeys_from_spec() -> bool {
        true
    }

    open spec fn from_spec(value: std::io::Error) -> Self {
        ScanoutError::Io(value)
    }
}

impl<B: Backend> From<DrmFormatParseError> for ScanoutError<B> {
    fn from(value: DrmFormatParseError) -> (r: Self) {
        ScanoutError::DrmFormat(value)
    }
}

impl<B: Backend> vstd::std_specs::convert::FromSpecImpl<DrmFormatParseError> for ScanoutError<B> {
    open spec fn obeys_from_spec() -> bool {
        true
    }

    open spec fn from_spec(value: DrmFormatParseError) -> Self {
        ScanoutError::DrmFormat(value)
    }
}

impl<B: Backend> From<ModesetError> for ScanoutError<B> {
    fn from(value: ModesetError) -> (r: Self) {
        ScanoutError::Modeset(value)
    }
}

impl<B: Backend> vstd::std_specs::convert::FromSpecImpl<ModesetError> for ScanoutError<B> {
    open spec fn obeys_from_spec() -> bool {
        true
    }

    open spec fn from_spec(value: ModesetError) -> Self {
        ScanoutError::Modeset(value)
    }
}

impl From<std::io::Error> for ModesetError {
    fn from(value: std::io::Error) -> (r: Self) {
        ModesetError::Io(value)
    }
}

impl vstd::std_specs::convert::FromSpecImpl<std::io::Error> for ModesetError {
    open spec fn obeys_from_spec() -> bool {
        true
    }

    open spec fn from_spec(value: std::io::Error) -> Self {
        ModesetError::Io(value)
    }
}

impl From<AtomicReqError> for ModesetError {
    fn from(value: AtomicReqError) -> (r: Self) {
        ModesetError::AtomicReq(value)
    }
}

impl vstd::std_specs::convert::FromSpecImpl<AtomicReqError> for ModesetError {
    open spec fn obeys_from_spec() -> bool {
        true
    }

    open spec fn from_spec(value: AtomicReqError) -> Self {
        ModesetError::AtomicReq(value)
    }
}

/// The display pipeline that an output drives.
#[derive(Debug, Clone, Copy)]
pub struct Pipeline {
    pub crtc: u32,
    pub plane: u32,
    pub mode: Mode,
    pub connector: u32,
    pub format: Format,
}

/// What is known of the display pipeline that an output drives.
#[derive(Debug)]
pub struct DrmState {
    pub cache: AtomicRequestCache,
    pub crtc: u32,
    pub plane: u32,
    pub mode: Mode,
    pub connector: u32,
    pub format: Format,
    pub modifiers: Vec<u64>,
    pub previous_state: CrtcState,
}

/// What a buffer has to be fit for.
#[derive(Debug, Clone, Copy, PartialEq, Eq, Structural)]
pub struct BufferFlags {
    /// To be shown.
    pub scanout: bool,
    /// To be drawn to by a GPU.
    pub rendering: bool,
    /// To have its rows one after another.
    pub linear: bool,
    /// To be written to by the processor.
    pub write: bool,
}

impl BufferFlags {
    /// A buffer that a GPU draws to, and that is shown.
    pub fn rendered() -> (r: Self)
        ensures
            r == (BufferFlags { scanout: true, rendering: true, linear: false, write: false }),
    {
        BufferFlags { scanout: true, rendering: true, linear: false, write: false }
    }
}

/// What the buffers of an output have to be like.
#[derive(Debug)]
pub struct BufferRequest {
    pub width: u32,
    pub height: u32,
    pub fourcc: u32,
    pub modifiers: Vec<u64>,
    pub flags: BufferFlags,
}

/// What a CRTC has to be set to.
#[derive(Debug, Clone, Copy, PartialEq, Eq)]
pub struct CrtcRequest {
    pub crtc: u32,
    pub framebuffer: Option<u32>,
    pub position: (u32, u32),
    pub connector: u32,
    pub mode: Option<Mode>,
}

impl DrmState {
    pub fn new<B: Backend>(
        pipeline: Pipeline,
        cache: AtomicRequestCache,
        modifiers: Vec<u64>,
        previous_state: Result<CrtcState, std::io::Error>,
    ) -> (r: Result<Self, ScanoutError<B>>)
        ensures
            match previous_state {
                Err(e) => r == Err::<Self, ScanoutError<B>>(ScanoutError::Io(e)),
                Ok(previous_state) => r == Ok::<Self, ScanoutError<B>>(
                    DrmState {
                        cache,
                        crtc: pipeline.crtc,
                        plane: pipeline.plane,
                        mode: pipeline.mode,
                        connector: pipeline.connector,
                        format: pipeline.format,
                        modifiers,
                        previous_state,
                    },
                ),
            },
    {
        match previous_state {
            Err(e) => Err(ScanoutError::Io(e)),
            Ok(previous_state) => Ok(
                DrmState {
                    cache,
                    crtc: pipeline.crtc,
                    plane: pipeline.plane,
                    mode: pipeline.mode,
                    connector: pipeline.connector,
                    format: pipeline.format,
                    modifiers,
                    previous_state,
                },
            ),
        }
    }

    /// What the buffers of the output have to be like: of the size of the mode,
    /// and fit for what the renderer does with them.
    pub fn buffer_request(&self, flags: BufferFlags) -> (r: BufferRequest)
        ensures
            r.width == self.mode.hdisplay,
            r.height == self.mode.vdisplay,
            r.fourcc == self.format.0,
            r.modifiers@ == self.modifiers@,
            r.flags == flags,
    {
        let (width, height) = self.mode.size();
        BufferRequest {
            width: width as u32,
            height: height as u32,
            fourcc: self.format.fourcc(),
            modifiers: self.modifiers.clone(),
            flags,
        }
    }

    /// What the CRTC has to be set to when the output is given up: what it was
    /// set to before.
    pub open spec fn before(self) -> CrtcRequest {
        CrtcRequest {
            crtc: self.crtc,
            framebuffer: self.previous_state.framebuffer,
            position: self.previous_state.position,
            connector: self.connector,
            mode: self.previous_state.mode,
        }
    }

    pub fn restore(&self) -> (r: CrtcRequest)
        ensures
            r == self.before(),
            r.crtc == self.crtc,
            r.connector == self.connector,
            r.framebuffer == self.previous_state.framebuffer,
            r.position == self.previous_state.position,
            r.mode == self.previous_state.mode,
    {
        CrtcRequest {
            crtc: self.crtc,
            framebuffer: self.previous_state.framebuffer,
            position: self.previous_state.position,
            connector: self.connector,
            mode: self.previous_state.mode,
        }
    }
}

/// A buffer that can be shown. `F` destroys its framebuffer.
///
/// Whoever lets a buffer go calls [`ScanoutBuffer::drop`].
pub struct ScanoutBuffer<B: Backend, F: FnOnce(u32)> {
    pub framebuffer: Guard<u32, F>,
    /// Kept for as long as the framebuffer is.
    pub buffer_object: B::BufferObject,
    pub backend: B::Buffer,
}

/// A buffer object and its framebuffer, as the device handed them out, or why it
/// did not.
pub type Allocated<B, F> = Result<
    (<B as Backend>::BufferObject, Guard<u32, F>),
    std::io::Error,
>;

/// Whether the framebuffer can be destroyed, where there is one.
pub open spec fn disposable<B: Backend, F: FnOnce(u32)>(allocated: Allocated<B, F>) -> bool {
    allocated matches Ok((_, framebuffer)) ==> framebuffer.disposable()
}

/// Whether the framebuffer was destroyed, where there was one.
pub open spec fn disposed<B: Backend, F: FnOnce(u32)>(allocated: Allocated<B, F>) -> bool {
    allocated matches Ok((_, framebuffer)) ==> framebuffer.disposed()
}

impl<B: Backend, F: FnOnce(u32)> ScanoutBuffer<B, F> {
    /// What making a buffer comes to, given what the backend answered: the
    /// buffer, or the error, with the framebuffer destroyed.
    pub open spec fn answered(
        buffer_object: B::BufferObject,
        framebuffer: Guard<u32, F>,
        outcome: Result<B::Buffer, B::Error>,
        r: Result<Self, ScanoutError<B>>,
    ) -> bool {
        match outcome {
            Ok(buffer) => r == Ok::<Self, ScanoutError<B>>(
                ScanoutBuffer { framebuffer, buffer_object, backend: buffer },
            ),
            Err(e) => {
                &&& r == Err::<Self, ScanoutError<B>>(ScanoutError::Backend(e))
                &&& framebuffer.disposed()
            },
        }
    }

    /// Puts a buffer together, or destroys its framebuffer, depending on what the
    /// backend answered.
    pub fn finish(
        buffer_object: B::BufferObject,
        framebuffer: Guard<u32, F>,
        outcome: Result<B::Buffer, B::Error>,
    ) -> (r: Result<Self, ScanoutError<B>>)
        requires
            outcome is Err ==> framebuffer.disposable(),
        ensures
            Self::answered(buffer_object, framebuffer, outcome, r),
    {
        match outcome {
            Ok(buffer) => Ok(ScanoutBuffer { framebuffer, buffer_object, backend: buffer }),
            Err(e) => {
                let mut framebuffer = framebuffer;
                framebuffer.drop();
                Err(ScanoutError::Backend(e))
            },
        }
    }

    /// Whether `r` can come of making a buffer out of what the device handed out.
    pub open spec fn made(
        drm: DrmState,
        backend: B,
        allocated: Allocated<B, F>,
        r: Result<Self, ScanoutError<B>>,
    ) -> bool {
        match allocated {
            Err(e) => r == Err::<Self, ScanoutError<B>>(ScanoutError::Io(e)),
            Ok((buffer_object, framebuffer)) => exists|outcome: Result<B::Buffer, B::Error>|
                {
                    &&& #[trigger] backend.prepared(drm, buffer_object, outcome)
                    &&& Self::answered(buffer_object, framebuffer, outcome, r)
                },
        }
    }

    /// Makes a buffer out of what the device handed out. The framebuffer is
    /// destroyed where the backend fails, and is kept else.
    pub fn new(drm: &DrmState, backend: &B, allocated: Allocated<B, F>) -> (r: Result<
        Self,
        ScanoutError<B>,
    >)
        requires
            disposable::<B, F>(allocated),
        ensures
            Self::made(*drm, *backend, allocated, r),
    {
        match allocated {
            Err(e) => Err(ScanoutError::Io(e)),
            Ok((buffer_object, framebuffer)) => {
                let outcome = backend.new_buffer(drm, &buffer_object);
                Self::finish(buffer_object, framebuffer, outcome)
            },
        }
    }

    /// Gives the buffer up: destroys its framebuffer, unless that was done before.
    pub fn drop(&mut self)
        requires
            old(self).framebuffer.disposable(),
        ensures
            old(self).framebuffer.disposed(),
            !final(self).framebuffer.armed(),
            final(self).framebuffer.value() == old(self).framebuffer.value(),
            final(self).buffer_object == old(self).buffer_object,
            final(self).backend == old(self).backend,
    {
        self.framebuffer.drop()
    }
}

/// A framebuffer that was handed out is destroyed where no buffer can be made of
/// it. Else the buffer holds it, and it is still to be destroyed when the buffer
/// is given up.
pub proof fn framebuffers_are_destroyed_or_held<B: Backend, F: FnOnce(u32)>(
    drm: DrmState,
    backend: B,
    allocated: Allocated<B, F>,
    r: Result<ScanoutBuffer<B, F>, ScanoutError<B>>,
)
    requires
        ScanoutBuffer::made(drm, backend, allocated, r),
    ensures
        match r {
            Err(_) => disposed::<B, F>(allocated),
            Ok(buffer) => allocated matches Ok((_, framebuffer)) && buffer.framebuffer
                == framebuffer,
        },
{
}

/// The CRTC of the output is set back to what it showed before: to the same
/// framebuffer at the same place, in the same mode, on the connector of the output,
/// and to nothing where it showed nothing.
pub proof fn what_was_shown_before_is_shown_again(drm: DrmState)
    ensures
        drm.before().framebuffer == drm.previous_state.framebuffer,
        drm.before().position.0 == drm.previous_state.position.0,
        drm.before().position.1 == drm.previous_state.position.1,
        drm.before().mode == drm.previous_state.mode,
        drm.before().crtc == drm.crtc,
        drm.before().connector == drm.connector,
{
}

/// What the CRTC is set back to tells what it was set to: two outputs on the same
/// CRTC and connector are set back alike only where they found the CRTC alike.
pub proof fn nothing_of_what_was_before_is_lost(one: DrmState, other: DrmState)
    requires
        one.before() == other.before(),
    ensures
        one.previous_state == other.previous_state,
        one.crtc == other.crtc,
        one.connector == other.connector,
{
}

/// A buffer consists of what the device handed out and of what the backend made of
/// it. Where there is no buffer, the one of them that failed is told.
pub proof fn buffers_hold_what_they_are_made_of<B: Backend, F: FnOnce(u32)>(
    drm: DrmState,
    backend: B,
    allocated: Allocated<B, F>,
    r: Result<ScanoutBuffer<B, F>, ScanoutError<B>>,
)
    requires
        ScanoutBuffer::made(drm, backend, allocated, r),
    ensures
        match r {
            Ok(buffer) => {
                &&& allocated == Ok::<(B::BufferObject, Guard<u32, F>), std::io::Error>(
                    (buffer.buffer_object, buffer.framebuffer),
                )
                &&& backend.prepared(
                    drm,
                    buffer.buffer_object,
                    Ok::<B::Buffer, B::Error>(buffer.backend),
                )
            },
            Err(ScanoutError::Io(e)) => allocated == Err::<
                (B::BufferObject, Guard<u32, F>),
                std::io::Error,
            >(e),
            Err(ScanoutError::Backend(e)) => {
                &&& allocated is Ok
                &&& backend.prepared(drm, allocated->Ok_0.0, Err::<B::Buffer, B::Error>(e))
                &&& allocated->Ok_0.1.disposed()
            },
            Err(_) => false,
        },
{
}

/// An error that is turned into another one is still there to be looked at, as it is.
pub proof fn errors_keep_what_they_come_from<B: Backend>(
    io: std::io::Error,
    format: DrmFormatParseError,
    modeset: ModesetError,
    request: AtomicReqError,
)
    ensures
        <ScanoutError<B> as vstd::std_specs::convert::FromSpec<std::io::Error>>::from_spec(io)
            == ScanoutError::<B>::Io(io),
        <ScanoutError<B> as vstd::std_specs::convert::FromSpec<DrmFormatParseError>>::from_spec(
            format,
        ) == ScanoutError::<B>::DrmFormat(format),
        <ScanoutError<B> as vstd::std_specs::convert::FromSpec<ModesetError>>::from_spec(modeset)
            == ScanoutError::<B>::Modeset(modeset),
        <ModesetError as vstd::std_specs::convert::FromSpec<std::io::Error>>::from_spec(io)
            == ModesetError::Io(io),
        <ModesetError as vstd::std_specs::convert::FromSpec<AtomicReqError>>::from_spec(request)
            == ModesetError::AtomicReq(request),
{
}

/// The errors that this library makes have a text of their own, and what is wrong with
/// a blob is told as it is; the others bring theirs.
pub proof fn errors_of_others_bring_their_text<B: Backend>(error: ScanoutError<B>)
    ensures
        error.text() is None <==> error is Io || error is Backend || error is Modeset,
        error is DrmFormat ==> error.text() == Some(error->DrmFormat_0.text()),
        error is CannotGetDrmFormats ==> error.text() == Some("cannot get supported formats"@),
{
}

/// What was allocated can be given up where the cleanup of its framebuffer can be called,
/// and was given up where that cleanup was called; where nothing was allocated, there is
/// nothing to be given up.
pub proof fn allocations_owe_the_cleanup_of_their_framebuffer<B: Backend, F: FnOnce(u32)>(
    allocated: Allocated<B, F>,
)
    ensures
        match allocated {
            Ok((_, framebuffer)) => framebuffer.armed() ==> {
                &&& disposable::<B, F>(allocated) <==> framebuffer.cleanup().requires(
                    (framebuffer.value(),),
                )
                &&& disposed::<B, F>(allocated) <==> framebuffer.cleanup().ensures(
                    (framebuffer.value(),),
                    (),
                )
            },
            Err(_) => disposable::<B, F>(allocated) && disposed::<B, F>(allocated),
        },
{
}

} // verus!
