//! An output: a ring of buffers, a renderer that draws to them in turn, and the
//! queue of those that are drawn and wait to be shown.

use crate::drmx::atomic_req;
use crate::drmx::atomic_req::{
    Assignment, AtomicReqError, AtomicRequest, AtomicRequestCache, Commit, Fixed16, Object, Property,
    Setting, Value, ALLOW_MODESET, ANNOUNCED_FLIP,
};
use crate::drmx::mode::CrtcState;
use crate::format_modifier;
use crate::format_modifier::DrmFormatParseError;
use crate::modifiers;
use crate::modifiers::{negotiate, Agreement};
use crate::scanout;
use crate::scanout::{
    Allocated, Backend, BackendBuffer, CrtcRequest, DrmState, ModesetError, Pipeline, Poll,
    ScanoutBuffer, ScanoutError, LEN,
};
use crate::search;
use crate::utils::Guard;
use std::collections::VecDeque;
use vstd::prelude::*;

verus! {

/// A buffer that is drawn and waits to be shown.
#[derive(Debug, Clone, Copy, PartialEq, Eq, Structural)]
pub struct ScanoutRequest {
    /// The index of the buffer in the ring.
    pub frame_i: usize,
}

/// The fence of the buffers of a backend.
pub type FenceOf<B> = <<B as Backend>::Buffer as BackendBuffer>::Fence;

/// An output that is drawn to ahead of what is shown. `F` destroys a framebuffer,
/// and `R` sets a CRTC.
///
/// Whoever lets an output go calls [`BufferedOutput::drop`].
pub struct BufferedOutput<B: Backend, F: FnOnce(u32), R: FnOnce(CrtcRequest)> {
    /// The number of frames that were drawn.
    pub frame: usize,
    pub queue: VecDeque<ScanoutRequest>,
    pub drm: DrmState,
    /// What the CRTC is set to when the output is given up.
    pub restore: Guard<CrtcRequest, R>,
    pub backend: B,
    pub buffers: [ScanoutBuffer<B, F>; LEN],
}

/// How far an output is: how many frames were drawn, and which buffers wait to
/// be shown, the next one first.
#[verifier::ext_equal]
pub struct Rotation {
    pub frame: nat,
    pub queue: Seq<ScanoutRequest>,
}

impl Rotation {
    /// Nothing is drawn yet.
    pub open spec fn start() -> Rotation {
        Rotation { frame: 0, queue: Seq::empty() }
    }

    /// The index of the buffer that the next frame is drawn to.
    pub open spec fn drawn_next(self) -> int {
        (self.frame % (LEN as nat)) as int
    }

    /// One more frame is drawn.
    pub open spec fn drawn(self) -> Rotation {
        Rotation {
            frame: self.frame + 1,
            queue: self.queue.push(ScanoutRequest { frame_i: self.drawn_next() as usize }),
        }
    }

    /// The buffer that waited longest is taken to be shown.
    pub open spec fn shown(self) -> Rotation
        recommends
            self.queue.len() > 0,
    {
        Rotation { frame: self.frame, queue: self.queue.drop_first() }
    }

    /// The buffers that wait are those of the frames drawn last, in their order.
    pub open spec fn in_step(self) -> bool {
        &&& self.queue.len() <= self.frame
        &&& forall|k: int|
            0 <= k < self.queue.len() ==> (#[trigger] self.queue[k]).frame_i == (self.frame
                - self.queue.len() + k) % (LEN as int)
    }
}

/// What has to be set so that a framebuffer is shown on a display that was off.
pub open spec fn modeset_assignments<F>(drm: DrmState, framebuffer: u32) -> Seq<Assignment<F>> {
    let connector = Object::Connector(drm.connector);
    let crtc = Object::Crtc(drm.crtc);
    let plane = Object::Plane(drm.plane);
    let (w, h) = (drm.mode.hdisplay, drm.mode.vdisplay);
    seq![
        Assignment { object: connector, property: Property::CrtcId, value: Value::Handle(Some(drm.crtc)) },
        Assignment { object: crtc, property: Property::Active, value: Value::Boolean(true) },
        Assignment { object: crtc, property: Property::ModeId, value: Value::Mode(Some(drm.mode)) },
        Assignment { object: plane, property: Property::CrtcId, value: Value::Handle(Some(drm.crtc)) },
        Assignment { object: plane, property: Property::FbId, value: Value::Handle(Some(framebuffer)) },
        Assignment { object: plane, property: Property::SrcX, value: Value::Fixed(Fixed16::whole(0)) },
        Assignment { object: plane, property: Property::SrcY, value: Value::Fixed(Fixed16::whole(0)) },
        Assignment { object: plane, property: Property::SrcW, value: Value::Fixed(Fixed16::whole(w)) },
        Assignment { object: plane, property: Property::SrcH, value: Value::Fixed(Fixed16::whole(h)) },
        Assignment { object: plane, property: Property::CrtcX, value: Value::Signed(0) },
        Assignment { object: plane, property: Property::CrtcY, value: Value::Signed(0) },
        Assignment { object: plane, property: Property::CrtcW, value: Value::Unsigned(w as u32) },
        Assignment { object: plane, property: Property::CrtcH, value: Value::Unsigned(h as u32) },
    ]
}

/// What has to be set so that another framebuffer is shown, once `fence` signals.
pub open spec fn flip_assignments<F>(drm: DrmState, framebuffer: u32, fence: Option<F>) -> Seq<
    Assignment<F>,
> {
    let crtc = Object::Crtc(drm.crtc);
    let plane = Object::Plane(drm.plane);
    seq![
        Assignment { object: plane, property: Property::FbId, value: Value::Handle(Some(framebuffer)) },
        Assignment { object: plane, property: Property::InFenceFd, value: Value::InFence(fence) },
        Assignment { object: crtc, property: Property::OutFencePtr, value: Value::OutFence },
    ]
}

/// What to do next to show a buffer.
pub enum FlipStep<F> {
    /// No buffer waits.
    Idle,
    /// Commit the request, and pass the fence that comes of it to
    /// [`BufferedOutput::finish_flip`].
    Commit { frame_i: usize, commit: Commit<F> },
}

/// `r` is a commit of the settings with the flags, or the error.
pub open spec fn is_commit<F>(
    settings: Result<Seq<Setting<F>>, AtomicReqError>,
    flags: u32,
    r: Result<Commit<F>, ModesetError>,
) -> bool {
    match settings {
        Ok(settings) => {
            &&& r matches Ok(commit)
            &&& commit.settings@ == settings
            &&& commit.flags == flags
        },
        Err(e) => r == Err::<Commit<F>, ModesetError>(ModesetError::AtomicReq(e)),
    }
}

impl<B: Backend, F: FnOnce(u32), R: FnOnce(CrtcRequest)> BufferedOutput<B, F, R> {
    /// How far the output is.
    pub open spec fn rotation(&self) -> Rotation {
        Rotation { frame: self.frame as nat, queue: self.queue@ }
    }

    /// Whether nothing but one buffer's backend differs from `other`'s buffers.
    pub open spec fn buffers_kept(&self, other: &Self, but: int) -> bool {
        &&& forall|k: int|
            0 <= k < LEN && k != but ==> #[trigger] self.buffers@[k] == other.buffers@[k]
        &&& self.buffers@[but].framebuffer == other.buffers@[but].framebuffer
        &&& self.buffers@[but].buffer_object == other.buffers@[but].buffer_object
    }

    /// What opening the renderer comes to, given what the renderer answered.
    pub fn opened(outcome: Result<B, B::Error>) -> (r: Result<B, ScanoutError<B>>)
        ensures
            r == (match outcome {
                Ok(backend) => Ok::<B, ScanoutError<B>>(backend),
                Err(e) => Err(ScanoutError::Backend(e)),
            }),
    {
        match outcome {
            Ok(backend) => Ok(backend),
            Err(e) => Err(ScanoutError::Backend(e)),
        }
    }

    /// Opens the renderer of the output.
    pub fn open(card: &B::Card) -> (r: Result<B, ScanoutError<B>>)
        ensures
            exists|outcome: Result<B, B::Error>|
                #[trigger] B::opened(*card, outcome) && r == (match outcome {
                    Ok(backend) => Ok::<B, ScanoutError<B>>(backend),
                    Err(e) => Err(ScanoutError::Backend(e)),
                }),
    {
        Self::opened(B::new(card))
    }

    /// Whether the output can be given up.
    pub open spec fn disposable(&self) -> bool {
        &&& self.restore.disposable()
        &&& forall|k: int|
            0 <= k < LEN ==> (#[trigger] self.buffers@[k]).framebuffer.disposable()
    }

    /// Whether the output was given up: the CRTC was set back, and all
    /// framebuffers were destroyed.
    pub open spec fn disposed(&self) -> bool {
        &&& self.restore.disposed()
        &&& forall|k: int| 0 <= k < LEN ==> (#[trigger] self.buffers@[k]).framebuffer.disposed()
    }

    /// What is given up with the output, in this order: the renderer is let go
    /// when it is no longer shown, and before the buffers that it drew to.
    pub open spec fn given_up(&self) -> Seq<OutputRelease> {
        seq![
            OutputRelease::Crtc(self.restore.value()),
            OutputRelease::Renderer,
            OutputRelease::Framebuffer(self.buffers@[0].framebuffer.value()),
            OutputRelease::Framebuffer(self.buffers@[1].framebuffer.value()),
            OutputRelease::Framebuffer(self.buffers@[2].framebuffer.value()),
        ]
    }

    pub fn releases(&self) -> (r: Vec<OutputRelease>)
        ensures
            r@ == self.given_up(),
    {
        let r: Vec<OutputRelease> = vec![
            OutputRelease::Crtc(*self.restore),
            OutputRelease::Renderer,
            OutputRelease::Framebuffer(*self.buffers[0].framebuffer),
            OutputRelease::Framebuffer(*self.buffers[1].framebuffer),
            OutputRelease::Framebuffer(*self.buffers[2].framebuffer),
        ];
        assert(r@ =~= self.given_up());
        r
    }

    /// The output, to be given up piece by piece.
    pub fn dismantle(self) -> (r: Dismantling<B, F, R>)
        ensures
            r.done == 0,
            r.order() == self.given_up(),
            r.disposable() == self.disposable(),
            r.restore == self.restore,
            r.backend == Some(self.backend),
            r.buffers == self.buffers,
    {
        let BufferedOutput { restore, backend, buffers, .. } = self;
        Dismantling { done: 0, restore, backend: Some(backend), buffers }
    }

    /// Gives the output up: does all of [`BufferedOutput::releases`], in that
    /// order.
    pub fn drop(self)
        requires
            self.disposable(),
        ensures
            self.disposed(),
            self.restore.armed() ==> self.restore.cleanup().ensures((self.restore.value(),), ()),
            forall|k: int|
                0 <= k < 3 && (#[trigger] self.buffers@[k]).framebuffer.armed()
                    ==> self.buffers@[k].framebuffer.cleanup().ensures(
                    (self.buffers@[k].framebuffer.value(),),
                    (),
                ),
    {
        let order = self.releases();
        let mut rest = self.dismantle();
        let ghost start = rest;
        let mut i: usize = 0;
        while i < order.len()
            invariant
                i <= order@.len(),
                order@ == start.order(),
                rest.order() == start.order(),
                rest.done == i,
                rest.disposable(),
                rest.kept_from(start),
                start.disposed_before(i as int),
            decreases order@.len() - i,
        {
            rest.release(order[i]);
            i = i + 1;
        }
    }

    /// Puts an output together of which nothing is drawn yet, and makes the
    /// request that turns the display on. All the buffers are tried; the first
    /// that cannot be made is what is wrong. Where something is wrong, all
    /// framebuffers are destroyed, and the CRTC is set back.
    pub fn new(
        drm: DrmState,
        backend: B,
        set_crtc: R,
        a1: Allocated<B, F>,
        a2: Allocated<B, F>,
        a3: Allocated<B, F>,
    ) -> (r: Result<(Self, Commit<FenceOf<B>>), ScanoutError<B>>)
        requires
            set_crtc.requires((drm.before(),)),
            scanout::disposable::<B, F>(a1),
            scanout::disposable::<B, F>(a2),
            scanout::disposable::<B, F>(a3),
        ensures
            exists|b1, b2, b3|
                {
                    &&& #[trigger] ScanoutBuffer::made(drm, backend, a1, b1)
                    &&& #[trigger] ScanoutBuffer::made(drm, backend, a2, b2)
                    &&& #[trigger] ScanoutBuffer::made(drm, backend, a3, b3)
                    &&& put_together(drm, backend, set_crtc, b1, b2, b3, r)
                },
            r is Err ==> {
                &&& scanout::disposed::<B, F>(a1)
                &&& scanout::disposed::<B, F>(a2)
                &&& scanout::disposed::<B, F>(a3)
                &&& set_crtc.ensures((drm.before(),), ())
            },
    {
        let mut restore = Guard::new(drm.restore(), set_crtc);
        let b1 = ScanoutBuffer::new(&drm, &backend, a1);
        let b2 = ScanoutBuffer::new(&drm, &backend, a2);
        let b3 = ScanoutBuffer::new(&drm, &backend, a3);
        assert(ScanoutBuffer::made(drm, backend, a1, b1));
        assert(ScanoutBuffer::made(drm, backend, a2, b2));
        assert(ScanoutBuffer::made(drm, backend, a3, b3));
        let mut b1 = match b1 {
            Ok(buffer) => buffer,
            Err(e) => {
                give_up(b3);
                give_up(b2);
                restore.drop();
                return Err(e);
            },
        };
        let mut b2 = match b2 {
            Ok(buffer) => buffer,
            Err(e) => {
                b1.drop();
                give_up(b3);
                restore.drop();
                return Err(e);
            },
        };
        let b3 = match b3 {
            Ok(buffer) => buffer,
            Err(e) => {
                b2.drop();
                b1.drop();
                restore.drop();
                return Err(e);
            },
        };
        let ghost made = seq![b1, b2, b3];
        let output = BufferedOutput {
            frame: 0,
            queue: VecDeque::with_capacity(3),
            drm,
            restore,
            backend,
            buffers: [b1, b2, b3],
        };
        assert(output.buffers@ =~= made);
        match output.modeset() {
            Ok(commit) => Ok((output, commit)),
            Err(e) => {
                assert(made[0] == output.buffers@[0] && made[1] == output.buffers@[1] && made[2]
                    == output.buffers@[2]);
                output.drop();
                Err(ScanoutError::Modeset(e))
            },
        }
    }

    /// The output, once the request that turns the display on was committed. It
    /// is given up where the commit failed.
    pub fn start(self, committed: Result<(), std::io::Error>) -> (r: Result<Self, ScanoutError<B>>)
        requires
            committed is Err ==> self.disposable(),
        ensures
            r == (match committed {
                Ok(()) => Ok::<Self, ScanoutError<B>>(self),
                Err(e) => Err(ScanoutError::Modeset(ModesetError::Io(e))),
            }),
            committed is Err ==> self.disposed(),
    {
        match committed {
            Ok(()) => Ok(self),
            Err(e) => {
                self.drop();
                Err(ScanoutError::Modeset(ModesetError::Io(e)))
            },
        }
    }

    /// The request that turns the display on and shows the buffer of the
    /// current frame.
    pub fn modeset(&self) -> (r: Result<Commit<FenceOf<B>>, ModesetError>)
        requires
            self.frame < LEN,
        ensures
            is_commit(
                self.drm.cache.resolved(
                    modeset_assignments::<FenceOf<B>>(
                        self.drm,
                        self.buffers@[self.frame as int].framebuffer.value(),
                    ),
                ),
                ALLOW_MODESET,
                r,
            ),
    {
        let framebuffer: u32 = *self.buffers[self.frame].framebuffer;
        let drm = &self.drm;
        let (w, h) = drm.mode.size();
        let connector = Object::Connector(drm.connector);
        let crtc = Object::Crtc(drm.crtc);
        let plane = Object::Plane(drm.plane);
        let assignments: Vec<Assignment<FenceOf<B>>> = vec![
            Assignment { object: connector, property: Property::CrtcId, value: Value::Handle(Some(drm.crtc)) },
            Assignment { object: crtc, property: Property::Active, value: Value::Boolean(true) },
            Assignment { object: crtc, property: Property::ModeId, value: Value::Mode(Some(drm.mode)) },
            Assignment { object: plane, property: Property::CrtcId, value: Value::Handle(Some(drm.crtc)) },
            Assignment { object: plane, property: Property::FbId, value: Value::Handle(Some(framebuffer)) },
            Assignment { object: plane, property: Property::SrcX, value: Value::Fixed(Fixed16::integer(0)) },
            Assignment { object: plane, property: Property::SrcY, value: Value::Fixed(Fixed16::integer(0)) },
            Assignment { object: plane, property: Property::SrcW, value: Value::Fixed(Fixed16::integer(w)) },
            Assignment { object: plane, property: Property::SrcH, value: Value::Fixed(Fixed16::integer(h)) },
            Assignment { object: plane, property: Property::CrtcX, value: Value::Signed(0) },
            Assignment { object: plane, property: Property::CrtcY, value: Value::Signed(0) },
            Assignment { object: plane, property: Property::CrtcW, value: Value::Unsigned(w as u32) },
            Assignment { object: plane, property: Property::CrtcH, value: Value::Unsigned(h as u32) },
        ];
        assert(assignments@ =~= modeset_assignments::<FenceOf<B>>(*drm, framebuffer));
        match AtomicRequest::of(&drm.cache, assignments) {
            Ok(request) => Ok(request.commit_modeset()),
            Err(e) => Err(ModesetError::AtomicReq(e)),
        }
    }

    /// Takes note of what came of drawing the next frame: a frame that was drawn
    /// waits to be shown.
    pub fn note_drawn(&mut self, outcome: Result<Poll, B::Error>) -> (r: Result<Poll, B::Error>)
        requires
            old(self).frame < usize::MAX,
        ensures
            r == outcome,
            final(self).rotation() == (if outcome == Ok::<Poll, B::Error>(Poll::Ready) {
                old(self).rotation().drawn()
            } else {
                old(self).rotation()
            }),
            outcome == Ok::<Poll, B::Error>(Poll::Ready) ==> {
                &&& final(self).frame == old(self).frame + 1
                &&& final(self).queue@ == old(self).queue@.push(
                    ScanoutRequest { frame_i: (old(self).frame % 3) as usize },
                )
            },
            outcome != Ok::<Poll, B::Error>(Poll::Ready) ==> {
                &&& final(self).frame == old(self).frame
                &&& final(self).queue@ == old(self).queue@
            },
            old(self).rotation().in_step() ==> final(self).rotation().in_step(),
            final(self).drm == old(self).drm,
            final(self).restore == old(self).restore,
            final(self).backend == old(self).backend,
            final(self).buffers == old(self).buffers,
    {
        if let Ok(Poll::Ready) = outcome {
            let frame_i: usize = self.frame % LEN;
            self.frame += 1;
            self.queue.push_back(ScanoutRequest { frame_i });
        }
        outcome
    }

    /// Draws the next frame, where its buffer is free, and has it wait to be shown.
    pub fn render(&mut self) -> (r: Result<Poll, B::Error>)
        requires
            old(self).frame < usize::MAX,
        ensures
            old(self).backend.rendered(
                old(self).buffers@[old(self).rotation().drawn_next()].backend,
                old(self).frame,
                final(self).backend,
                final(self).buffers@[old(self).rotation().drawn_next()].backend,
                r,
            ),
            final(self).rotation() == (if r == Ok::<Poll, B::Error>(Poll::Ready) {
                old(self).rotation().drawn()
            } else {
                old(self).rotation()
            }),
            r == Ok::<Poll, B::Error>(Poll::Ready) ==> {
                &&& final(self).frame == old(self).frame + 1
                &&& final(self).queue@ == old(self).queue@.push(
                    ScanoutRequest { frame_i: (old(self).frame % 3) as usize },
                )
            },
            r != Ok::<Poll, B::Error>(Poll::Ready) ==> {
                &&& final(self).frame == old(self).frame
                &&& final(self).queue@ == old(self).queue@
            },
            old(self).backend.rendered(
                old(self).buffers@[old(self).frame as int % 3].backend,
                old(self).frame,
                final(self).backend,
                final(self).buffers@[old(self).frame as int % 3].backend,
                r,
            ),
            forall|k: int|
                0 <= k < 3 ==> {
                    &&& (#[trigger] final(self).buffers@[k]).framebuffer == old(
                        self,
                    ).buffers@[k].framebuffer
                    &&& final(self).buffers@[k].buffer_object == old(self).buffers@[k].buffer_object
                    &&& k != old(self).frame % 3 ==> final(self).buffers@[k].backend == old(
                        self,
                    ).buffers@[k].backend
                },
            old(self).rotation().in_step() ==> final(self).rotation().in_step(),
            final(self).drm == old(self).drm,
            final(self).restore == old(self).restore,
            final(self).buffers_kept(old(self), old(self).rotation().drawn_next()),
    {
        let frame_i: usize = self.frame % LEN;
        let buffer = &mut self.buffers[frame_i];
        let outcome = self.backend.render(&mut buffer.backend, self.frame);
        self.note_drawn(outcome)
    }

    /// The request that shows a buffer, given the fence that the buffer handed
    /// out, or the error.
    pub fn show(
        &self,
        frame_i: usize,
        exported: Result<Option<FenceOf<B>>, B::Error>,
    ) -> (r: Result<FlipStep<FenceOf<B>>, ScanoutError<B>>)
        requires
            frame_i < LEN,
        ensures
            shows(self.drm, frame_i, self.buffers@[frame_i as int].framebuffer.value(), exported, r),
    {
        let drm = &self.drm;
        let framebuffer: u32 = *self.buffers[frame_i].framebuffer;
        let fence = match exported {
            Ok(fence) => fence,
            Err(e) => {
                return Err(ScanoutError::Backend(e));
            },
        };
        let crtc = Object::Crtc(drm.crtc);
        let plane = Object::Plane(drm.plane);
        let assignments: Vec<Assignment<FenceOf<B>>> = vec![
            Assignment { object: plane, property: Property::FbId, value: Value::Handle(Some(framebuffer)) },
            Assignment { object: plane, property: Property::InFenceFd, value: Value::InFence(fence) },
            Assignment { object: crtc, property: Property::OutFencePtr, value: Value::OutFence },
        ];
        assert(assignments@ =~= flip_assignments(*drm, framebuffer, fence));
        match AtomicRequest::of(&drm.cache, assignments) {
            Ok(request) => Ok(FlipStep::Commit { frame_i, commit: request.commit_flip() }),
            Err(e) => Err(ScanoutError::Modeset(ModesetError::AtomicReq(e))),
        }
    }

    /// Takes the buffer that waited longest, and makes the request that shows it.
    /// A buffer that was taken does not wait any more, whatever becomes of it.
    pub fn flip(&mut self) -> (r: Result<FlipStep<FenceOf<B>>, ScanoutError<B>>)
        requires
            old(self).queue@.len() > 0 ==> old(self).queue@[0].frame_i < LEN,
        ensures
            final(self).drm == old(self).drm,
            final(self).restore == old(self).restore,
            final(self).backend == old(self).backend,
            old(self).rotation().in_step() ==> final(self).rotation().in_step(),
            final(self).frame == old(self).frame,
            old(self).queue@.len() > 0 ==> final(self).queue@ == old(self).queue@.drop_first(),
            forall|k: int|
                0 <= k < 3 ==> {
                    &&& (#[trigger] final(self).buffers@[k]).framebuffer == old(
                        self,
                    ).buffers@[k].framebuffer
                    &&& final(self).buffers@[k].buffer_object == old(self).buffers@[k].buffer_object
                    &&& (old(self).queue@.len() == 0 || k != old(self).queue@[0].frame_i) ==> final(self).buffers@[k].backend == old(
                        self,
                    ).buffers@[k].backend
                },
            old(self).queue@.len() == 0 ==> {
                &&& final(self).queue@.len() == 0
                &&& r == Ok::<FlipStep<FenceOf<B>>, ScanoutError<B>>(FlipStep::Idle)
                &&& final(self).rotation() == old(self).rotation()
                &&& final(self).buffers == old(self).buffers
            },
            old(self).queue@.len() > 0 ==> {
                let i = old(self).queue@[0].frame_i as int;
                &&& final(self).rotation() == old(self).rotation().shown()
                &&& final(self).buffers_kept(old(self), i)
                &&& flip_outcome(
                    old(self).drm,
                    old(self).queue@[0].frame_i,
                    old(self).buffers@[i],
                    final(self).buffers@[i],
                    r,
                )
            },
    {
        let frame_i: usize = match self.queue.pop_front() {
            Some(request) => request.frame_i,
            None => {
                return Ok(FlipStep::Idle);
            },
        };
        let plane = Object::Plane(self.drm.plane);
        if self.drm.cache.property_handle(plane, Property::FbId).is_none() {
            let missing = AtomicReqError::MissingProperty { object: plane, property: Property::FbId };
            return Err(ScanoutError::Modeset(ModesetError::AtomicReq(missing)));
        }
        let buffer = &mut self.buffers[frame_i];
        let exported = buffer.backend.export_sync();
        assert(old(self).buffers@[frame_i as int].backend.exported(
            self.buffers@[frame_i as int].backend,
            exported,
        ));
        self.show(frame_i, exported)
    }

    /// What a flip comes to, given what came of handing the fence to the buffer.
    pub fn flipped(outcome: Result<(), B::Error>) -> (r: Result<Poll, ScanoutError<B>>)
        ensures
            r == (match outcome {
                Ok(()) => Ok::<Poll, ScanoutError<B>>(Poll::Ready),
                Err(e) => Err(ScanoutError::Backend(e)),
            }),
    {
        match outcome {
            Ok(()) => Ok(Poll::Ready),
            Err(e) => Err(ScanoutError::Backend(e)),
        }
    }

    /// Hands the fence of a committed flip to the buffer that is shown. It
    /// signals when the buffer is no longer shown.
    pub fn finish_flip(
        &mut self,
        frame_i: usize,
        committed: Result<FenceOf<B>, std::io::Error>,
    ) -> (r: Result<Poll, ScanoutError<B>>)
        requires
            frame_i < LEN,
        ensures
            final(self).drm == old(self).drm,
            final(self).restore == old(self).restore,
            final(self).backend == old(self).backend,
            final(self).rotation() == old(self).rotation(),
            final(self).frame == old(self).frame,
            final(self).queue@ == old(self).queue@,
            final(self).buffers_kept(old(self), frame_i as int),
            forall|k: int|
                0 <= k < 3 ==> {
                    &&& (#[trigger] final(self).buffers@[k]).framebuffer == old(
                        self,
                    ).buffers@[k].framebuffer
                    &&& final(self).buffers@[k].buffer_object == old(self).buffers@[k].buffer_object
                    &&& k != frame_i ==> final(self).buffers@[k].backend == old(
                        self,
                    ).buffers@[k].backend
                },
            match committed {
                Err(e) => {
                    &&& r == Err::<Poll, ScanoutError<B>>(ScanoutError::Io(e))
                    &&& final(self).buffers == old(self).buffers
                },
                Ok(out_fence) => exists|outcome: Result<(), B::Error>|
                    {
                        &&& #[trigger] old(self).buffers@[frame_i as int].backend.imported(
                            out_fence,
                            final(self).buffers@[frame_i as int].backend,
                            outcome,
                        )
                        &&& r == (match outcome {
                            Ok(()) => Ok::<Poll, ScanoutError<B>>(Poll::Ready),
                            Err(e) => Err(ScanoutError::Backend(e)),
                        })
                    },
            },
    {
        let out_fence = match committed {
            Ok(out_fence) => out_fence,
            Err(e) => {
                return Err(ScanoutError::Io(e));
            },
        };
        let buffer = &mut self.buffers[frame_i];
        let outcome = buffer.backend.import_sync(out_fence);
        assert(old(self).buffers@[frame_i as int].backend.imported(
            out_fence,
            self.buffers@[frame_i as int].backend,
            outcome,
        ));
        Self::flipped(outcome)
    }
}

/// Whether `r` is the state that an output starts from, for a blob that was read:
/// its modifiers are those that the plane and the renderer agree on, and the rest
/// is what was given. With it comes whether they had to fall back to linear.
pub open spec fn configured<B: Backend>(
    backend: B,
    pipeline: Pipeline,
    cache: AtomicRequestCache,
    read: Result<format_modifier::BlobContents, DrmFormatParseError>,
    previous_state: Result<CrtcState, std::io::Error>,
    r: Result<(DrmState, bool), ScanoutError<B>>,
) -> bool {
    match read {
        Err(e) => r == Err::<(DrmState, bool), ScanoutError<B>>(ScanoutError::DrmFormat(e)),
        Ok(contents) => exists|offered: Set<u64>|
            {
                &&& #[trigger] backend.offered(pipeline.format, offered)
                &&& match previous_state {
                    Err(e) => r == Err::<(DrmState, bool), ScanoutError<B>>(ScanoutError::Io(e)),
                    Ok(previous_state) => {
                        let supported = modifiers::plane_modifiers(contents, pipeline.format.0);
                        &&& r matches Ok((drm, fallback))
                        &&& modifiers::usable(offered, supported, drm.modifiers@)
                        &&& fallback == offered.disjoint(supported)
                        &&& drm == (DrmState {
                            cache,
                            crtc: pipeline.crtc,
                            plane: pipeline.plane,
                            mode: pipeline.mode,
                            connector: pipeline.connector,
                            format: pipeline.format,
                            modifiers: drm.modifiers,
                            previous_state,
                        })
                    },
                }
            },
    }
}

/// The state that an output starts from, and whether the plane and the renderer
/// have no modifier in common and fall back to linear. `in_formats` is the
/// content of the blob that the plane's properties name, where there is one.
pub fn configure<B: Backend>(
    backend: &B,
    pipeline: Pipeline,
    cache: AtomicRequestCache,
    in_formats: Option<Vec<u8>>,
    previous_state: Result<CrtcState, std::io::Error>,
) -> (r: Result<(DrmState, bool), ScanoutError<B>>)
    ensures
        match in_formats {
            None => r == Err::<(DrmState, bool), ScanoutError<B>>(
                ScanoutError::CannotGetDrmFormats,
            ),
            Some(bytes) => configured(
                *backend,
                pipeline,
                cache,
                format_modifier::parsed(format_modifier::native(), bytes@),
                previous_state,
                r,
            ),
        },
{
    let agreement: Agreement = negotiate(backend, pipeline.format, in_formats)?;
    let drm = DrmState::new(pipeline, cache, agreement.modifiers, previous_state)?;
    Ok((drm, agreement.fallback))
}

/// Something that is given up with an output.
#[derive(Debug, Clone, Copy, PartialEq, Eq)]
pub enum OutputRelease {
    /// The CRTC is set back to this.
    Crtc(CrtcRequest),
    /// The renderer is let go.
    Renderer,
    /// The framebuffer is destroyed.
    Framebuffer(u32),
}

/// An output that is being given up.
pub struct Dismantling<B: Backend, F: FnOnce(u32), R: FnOnce(CrtcRequest)> {
    /// How much was given up so far.
    pub done: usize,
    pub restore: Guard<CrtcRequest, R>,
    pub backend: Option<B>,
    pub buffers: [ScanoutBuffer<B, F>; LEN],
}

impl<B: Backend, F: FnOnce(u32), R: FnOnce(CrtcRequest)> Dismantling<B, F, R> {
    /// All that is given up, in its order.
    pub open spec fn order(&self) -> Seq<OutputRelease> {
        seq![
            OutputRelease::Crtc(self.restore.value()),
            OutputRelease::Renderer,
            OutputRelease::Framebuffer(self.buffers@[0].framebuffer.value()),
            OutputRelease::Framebuffer(self.buffers@[1].framebuffer.value()),
            OutputRelease::Framebuffer(self.buffers@[2].framebuffer.value()),
        ]
    }

    /// Whether the rest can be given up.
    pub open spec fn disposable(&self) -> bool {
        &&& self.restore.disposable()
        &&& forall|k: int|
            0 <= k < LEN ==> (#[trigger] self.buffers@[k]).framebuffer.disposable()
    }

    /// Whether what comes after the first pieces is still as it was at the start.
    pub open spec fn kept_from(&self, start: Self) -> bool {
        &&& self.done == 0 ==> self.restore == start.restore
        &&& self.done <= 1 ==> self.backend == start.backend
        &&& forall|k: int|
            0 <= k < LEN && self.done <= k + 2 ==> #[trigger] self.buffers@[k] == start.buffers@[k]
    }

    /// Whether the first `count` pieces were given up.
    pub open spec fn disposed_before(&self, count: int) -> bool {
        &&& count > 0 ==> self.restore.disposed()
        &&& forall|k: int|
            0 <= k < LEN && k + 2 < count ==> (
            #[trigger] self.buffers@[k]).framebuffer.disposed()
    }

    /// Gives the next piece up, and nothing else.
    pub fn release(&mut self, release: OutputRelease)
        requires
            old(self).done < old(self).order().len(),
            release == old(self).order()[old(self).done as int],
            old(self).disposable(),
        ensures
            final(self).done == old(self).done + 1,
            final(self).order() == old(self).order(),
            final(self).disposable(),
            if old(self).done == 0 {
                &&& old(self).restore.disposed()
                &&& !final(self).restore.armed()
                &&& final(self).backend == old(self).backend
                &&& final(self).buffers == old(self).buffers
            } else if old(self).done == 1 {
                &&& final(self).restore == old(self).restore
                &&& final(self).backend is None
                &&& final(self).buffers == old(self).buffers
            } else {
                let i = old(self).done - 2;
                &&& final(self).restore == old(self).restore
                &&& final(self).backend == old(self).backend
                &&& old(self).buffers@[i].framebuffer.disposed()
                &&& !final(self).buffers@[i].framebuffer.armed()
                &&& forall|k: int|
                    0 <= k < LEN && k != i ==> #[trigger] final(self).buffers@[k] == old(
                        self,
                    ).buffers@[k]
            },
    {
        match release {
            OutputRelease::Crtc(_) => self.restore.drop(),
            OutputRelease::Renderer => {
                self.backend = None;
            },
            OutputRelease::Framebuffer(_) => self.buffers[self.done - 2].drop(),
        }
        self.done = self.done + 1;
    }
}

/// The order in which an output is given up: first the CRTC, then the renderer,
/// and then each framebuffer once.
pub proof fn outputs_are_given_up_in_order<B: Backend, F: FnOnce(u32), R: FnOnce(CrtcRequest)>(
    output: BufferedOutput<B, F, R>,
)
    ensures
        ({
            let order = output.given_up();
            &&& order.len() == LEN + 2
            &&& order[0] == OutputRelease::Crtc(output.restore.value())
            &&& order[1] == OutputRelease::Renderer
            &&& forall|k: int|
                0 <= k < LEN ==> #[trigger] order[k + 2] == OutputRelease::Framebuffer(
                    output.buffers@[k].framebuffer.value(),
                )
        }),
{
}

/// Gives a buffer up, where it could be made.
fn give_up<B: Backend, F: FnOnce(u32)>(made: Result<ScanoutBuffer<B, F>, ScanoutError<B>>)
    requires
        made matches Ok(buffer) ==> buffer.framebuffer.disposable(),
    ensures
        made matches Ok(buffer) ==> buffer.framebuffer.disposed(),
{
    if let Ok(buffer) = made {
        let mut buffer = buffer;
        buffer.drop();
    }
}

/// What comes of putting an output together of the buffers that were tried: the
/// output and the request that turns the display on, or the first error.
pub open spec fn put_together<B: Backend, F: FnOnce(u32), R: FnOnce(CrtcRequest)>(
    drm: DrmState,
    backend: B,
    set_crtc: R,
    b1: Result<ScanoutBuffer<B, F>, ScanoutError<B>>,
    b2: Result<ScanoutBuffer<B, F>, ScanoutError<B>>,
    b3: Result<ScanoutBuffer<B, F>, ScanoutError<B>>,
    r: Result<(BufferedOutput<B, F, R>, Commit<FenceOf<B>>), ScanoutError<B>>,
) -> bool {
    match (b1, b2, b3) {
        (Err(e), _, _) => r == Err::<(BufferedOutput<B, F, R>, Commit<FenceOf<B>>), ScanoutError<B>>(e),
        (Ok(_), Err(e), _) => r == Err::<
            (BufferedOutput<B, F, R>, Commit<FenceOf<B>>),
            ScanoutError<B>,
        >(e),
        (Ok(_), Ok(_), Err(e)) => r == Err::<
            (BufferedOutput<B, F, R>, Commit<FenceOf<B>>),
            ScanoutError<B>,
        >(e),
        (Ok(b1), Ok(b2), Ok(b3)) => match drm.cache.resolved(
            modeset_assignments::<FenceOf<B>>(drm, b1.framebuffer.value()),
        ) {
            Err(e) => r == Err::<(BufferedOutput<B, F, R>, Commit<FenceOf<B>>), ScanoutError<B>>(
                ScanoutError::Modeset(ModesetError::AtomicReq(e)),
            ),
            Ok(settings) => {
                &&& r matches Ok((output, commit))
                &&& output.rotation() == Rotation::start()
                &&& output.rotation().in_step()
                &&& output.drm == drm
                &&& output.restore.value() == drm.before()
                &&& output.restore.armed()
                &&& output.restore.cleanup() == set_crtc
                &&& output.backend == backend
                &&& output.buffers@ == seq![b1, b2, b3]
                &&& commit.settings@ == settings
                &&& commit.flags == ALLOW_MODESET
            },
        },
    }
}

/// What comes of asking to show a buffer, which goes from `before` to `after`.
/// Its fence is taken after the framebuffer is set and before the rest is.
pub open spec fn flip_outcome<B: Backend, F: FnOnce(u32)>(
    drm: DrmState,
    frame_i: usize,
    before: ScanoutBuffer<B, F>,
    after: ScanoutBuffer<B, F>,
    r: Result<FlipStep<FenceOf<B>>, ScanoutError<B>>,
) -> bool {
    let plane = Object::Plane(drm.plane);
    if drm.cache.handle_of(plane, Property::FbId) is None {
        &&& after == before
        &&& r == Err::<FlipStep<FenceOf<B>>, ScanoutError<B>>(
            ScanoutError::Modeset(
                ModesetError::AtomicReq(
                    AtomicReqError::MissingProperty { object: plane, property: Property::FbId },
                ),
            ),
        )
    } else {
        exists|exported: Result<Option<FenceOf<B>>, B::Error>|
            {
                &&& #[trigger] before.backend.exported(after.backend, exported)
                &&& shows(drm, frame_i, before.framebuffer.value(), exported, r)
            }
    }
}

/// `r` is the request that shows a buffer, given the fence that the buffer
/// handed out, or the error.
pub open spec fn shows<B: Backend>(
    drm: DrmState,
    frame_i: usize,
    framebuffer: u32,
    exported: Result<Option<FenceOf<B>>, B::Error>,
    r: Result<FlipStep<FenceOf<B>>, ScanoutError<B>>,
) -> bool {
    match exported {
        Err(e) => r == Err::<FlipStep<FenceOf<B>>, ScanoutError<B>>(ScanoutError::Backend(e)),
        Ok(fence) => is_flip(
            drm.cache.resolved(flip_assignments(drm, framebuffer, fence)),
            frame_i,
            r,
        ),
    }
}

/// `r` is a commit of the settings that shows the buffer, or the error.
pub open spec fn is_flip<B: Backend>(
    settings: Result<Seq<Setting<FenceOf<B>>>, AtomicReqError>,
    shown: usize,
    r: Result<FlipStep<FenceOf<B>>, ScanoutError<B>>,
) -> bool {
    match settings {
        Ok(settings) => {
            &&& r matches Ok(FlipStep::Commit { frame_i, commit })
            &&& frame_i == shown
            &&& commit.settings@ == settings
            &&& commit.flags == ANNOUNCED_FLIP
        },
        Err(e) => r == Err::<FlipStep<FenceOf<B>>, ScanoutError<B>>(
            ScanoutError::Modeset(ModesetError::AtomicReq(e)),
        ),
    }
}

/// Where the kernel put the fence of a commit: it leaves -1 where it made none.
pub fn out_fence(raw: i32) -> (r: Option<i32>)
    ensures
        r == (if raw == -1 {
            None::<i32>
        } else {
            Some(raw)
        }),
{
    if raw == -1 {
        None
    } else {
        Some(raw)
    }
}

/// What is done to an output, from the start on.
pub enum Turn {
    /// A frame is drawn.
    Draw,
    /// The output is asked to show the next buffer.
    Show,
}

/// How far an output is after some turns, and which buffers were shown, in
/// their order.
pub open spec fn played(turns: Seq<Turn>) -> (Rotation, Seq<usize>)
    decreases turns.len(),
{
    if turns.len() == 0 {
        (Rotation::start(), Seq::empty())
    } else {
        let (rotation, shown) = played(turns.drop_last());
        match turns.last() {
            Turn::Draw => (rotation.drawn(), shown),
            Turn::Show => if rotation.queue.len() > 0 {
                (rotation.shown(), shown.push(rotation.queue[0].frame_i))
            } else {
                (rotation, shown)
            },
        }
    }
}

/// The buffer is shown whole and unscaled: what is shown of it, and where it is
/// shown, has the size of the mode.
pub proof fn buffers_are_shown_unscaled<F>(drm: DrmState, framebuffer: u32, k: int)
    requires
        0 <= k < modeset_assignments::<F>(drm, framebuffer).len(),
    ensures
        ({
            let a = modeset_assignments::<F>(drm, framebuffer)[k];
            let (w, h) = (drm.mode.hdisplay, drm.mode.vdisplay);
            match a.property {
                Property::SrcX | Property::SrcY => a.value == Value::<F>::Fixed(Fixed16(0)),
                Property::SrcW => a.value matches Value::Fixed(n) && n.0 == w * 0x1_0000,
                Property::SrcH => a.value matches Value::Fixed(n) && n.0 == h * 0x1_0000,
                Property::CrtcX | Property::CrtcY => a.value == Value::<F>::Signed(0),
                Property::CrtcW => a.value matches Value::Unsigned(n) && n == w,
                Property::CrtcH => a.value matches Value::Unsigned(n) && n == h,
                _ => true,
            }
        }),
{
}

/// Whatever is drawn and shown when: the buffers are shown in turn, each frame
/// once and in the order in which the frames were drawn, and those that wait
/// are the rest.
pub proof fn frames_are_shown_in_order(turns: Seq<Turn>)
    ensures
        ({
            let (rotation, shown) = played(turns);
            &&& rotation.in_step()
            &&& shown.len() + rotation.queue.len() == rotation.frame
            &&& forall|k: int| 0 <= k < shown.len() ==> #[trigger] shown[k] == k % (LEN as int)
        }),
    decreases turns.len(),
{
    if turns.len() > 0 {
        frames_are_shown_in_order(turns.drop_last());
    }
}

/// As long as fewer frames wait than there are buffers, the buffer that is
/// drawn to next is none of those that wait.
pub proof fn waiting_buffers_are_not_drawn_over(rotation: Rotation)
    requires
        rotation.in_step(),
        rotation.queue.len() < LEN,
    ensures
        forall|k: int|
            0 <= k < rotation.queue.len() ==> (#[trigger] rotation.queue[k]).frame_i
                != rotation.drawn_next(),
{
}

/// The buffers that wait are different ones, as long as no more frames wait
/// than there are buffers.
pub proof fn waiting_buffers_differ(rotation: Rotation)
    requires
        rotation.in_step(),
        rotation.queue.len() <= LEN,
    ensures
        rotation.queue.no_duplicates(),
{
}

/// The request that turns the display on sets, to this and to nothing else: the mode
/// of the CRTC to the mode of the output, with all its timings; the CRTC active; the
/// CRTC of the connector and of the plane; the framebuffer of the plane; and
/// what else it sets belongs to the plane.
pub proof fn modesets_set_the_mode_of_the_output<F>(drm: DrmState, framebuffer: u32, k: int)
    requires
        0 <= k < modeset_assignments::<F>(drm, framebuffer).len(),
    ensures
        ({
            let a = modeset_assignments::<F>(drm, framebuffer)[k];
            match a.property {
                Property::ModeId => {
                    &&& a.object == Object::Crtc(drm.crtc)
                    &&& a.value == Value::<F>::Mode(Some(drm.mode))
                },
                Property::Active => {
                    &&& a.object == Object::Crtc(drm.crtc)
                    &&& a.value == Value::<F>::Boolean(true)
                },
                Property::CrtcId => {
                    &&& a.object == Object::Connector(drm.connector) || a.object == Object::Plane(
                        drm.plane,
                    )
                    &&& a.value == Value::<F>::Handle(Some(drm.crtc))
                },
                Property::FbId => {
                    &&& a.object == Object::Plane(drm.plane)
                    &&& a.value == Value::<F>::Handle(Some(framebuffer))
                },
                Property::InFenceFd | Property::OutFencePtr => false,
                _ => a.object == Object::Plane(drm.plane),
            }
        }),
{
}

/// The properties that the request which turns the display on sets: each of them is
/// set, and none twice.
pub proof fn modesets_set_each_property_once<F>(
    drm: DrmState,
    framebuffer: u32,
    object: Object,
    property: Property,
)
    ensures
        ({
            let all = modeset_assignments::<F>(drm, framebuffer);
            let set = exists|k: int|
                0 <= k < all.len() && (#[trigger] all[k]).object == object && all[k].property
                    == property;
            &&& set <==> match property {
                Property::ModeId | Property::Active => object == Object::Crtc(drm.crtc),
                Property::CrtcId => object == Object::Connector(drm.connector) || object
                    == Object::Plane(drm.plane),
                Property::InFenceFd | Property::OutFencePtr => false,
                _ => object == Object::Plane(drm.plane),
            }
            &&& forall|i: int, j: int|
                0 <= i < j < all.len() && (#[trigger] all[i]).object == (
                #[trigger] all[j]).object ==> all[i].property != all[j].property
        }),
{
    let all = modeset_assignments::<F>(drm, framebuffer);
    assert(all[0].property == Property::CrtcId && all[3].property == Property::CrtcId);
    assert(all[1].property == Property::Active && all[2].property == Property::ModeId);
    assert(all[4].property == Property::FbId);
    assert(all[5].property == Property::SrcX && all[6].property == Property::SrcY);
    assert(all[7].property == Property::SrcW && all[8].property == Property::SrcH);
    assert(all[9].property == Property::CrtcX && all[10].property == Property::CrtcY);
    assert(all[11].property == Property::CrtcW && all[12].property == Property::CrtcH);
}

/// A commit sets what was asked for, and has the flags that were asked for. Where there
/// is none, an object misses a property that was to be set, and had those that were
/// to be set before it.
pub proof fn commits_set_what_is_asked<F>(
    cache: AtomicRequestCache,
    assignments: Seq<Assignment<F>>,
    flags: u32,
    r: Result<Commit<F>, ModesetError>,
)
    requires
        is_commit(cache.resolved(assignments), flags, r),
    ensures
        match r {
            Ok(commit) => {
                &&& commit.flags == flags
                &&& commit.settings@.len() == assignments.len()
                &&& forall|k: int|
                    0 <= k < assignments.len() ==> {
                        let setting = #[trigger] commit.settings@[k];
                        &&& setting.object == assignments[k].object
                        &&& setting.value == assignments[k].value
                        &&& cache.handle_of(assignments[k].object, assignments[k].property) == Some(
                            setting.property,
                        )
                    }
            },
            Err(ModesetError::AtomicReq(AtomicReqError::MissingProperty { object, property })) => {
                exists|k: int|
                    {
                        &&& 0 <= k < assignments.len()
                        &&& (#[trigger] assignments[k]).object == object
                        &&& assignments[k].property == property
                        &&& cache.handle_of(object, property) is None
                        &&& forall|j: int|
                            0 <= j < k ==> cache.handle_of(
                                (#[trigger] assignments[j]).object,
                                assignments[j].property,
                            ) is Some
                    }
            },
            Err(_) => false,
        },
{
    atomic_req::requests_set_what_is_asked(cache, assignments);
    if cache.resolved(assignments) is Err {
        let missing = |a: Assignment<F>| cache.handle_of(a.object, a.property) is None;
        search::first_where_is_first(assignments, missing);
        atomic_req::requests_need_their_properties(cache, assignments);
        match search::first_where(assignments, missing) {
            Some(k) => {
                assert(missing(assignments[k]));
                assert forall|j: int| 0 <= j < k implies cache.handle_of(
                    (#[trigger] assignments[j]).object,
                    assignments[j].property,
                ) is Some by {
                    assert(!missing(assignments[j]));
                }
                atomic_req::the_first_missing_property_is_told(cache, assignments, k);
            },
            None => {
                assert forall|j: int| 0 <= j < assignments.len() implies cache.handle_of(
                    (#[trigger] assignments[j]).object,
                    assignments[j].property,
                ) is Some by {
                    assert(!missing(assignments[j]));
                }
            },
        }
    }
}

/// The commit that turns the display on gives the CRTC the mode of the output, in
/// every field, turns it on, and may change the mode.
pub proof fn modeset_commits_carry_the_mode<F>(
    drm: DrmState,
    framebuffer: u32,
    r: Result<Commit<F>, ModesetError>,
)
    requires
        is_commit(
            drm.cache.resolved(modeset_assignments::<F>(drm, framebuffer)),
            ALLOW_MODESET,
            r,
        ),
        r is Ok,
    ensures
        ({
            let commit = r->Ok_0;
            &&& commit.flags == 0x400
            &&& commit.settings@.len() == 13
            &&& exists|k: int|
                {
                    let s = #[trigger] commit.settings@[k];
                    &&& 0 <= k < 13
                    &&& s.object == Object::Crtc(drm.crtc)
                    &&& drm.cache.handle_of(s.object, Property::ModeId) == Some(s.property)
                    &&& s.value == Value::<F>::Mode(Some(drm.mode))
                }
            &&& exists|k: int|
                {
                    let s = #[trigger] commit.settings@[k];
                    &&& 0 <= k < 13
                    &&& s.object == Object::Crtc(drm.crtc)
                    &&& drm.cache.handle_of(s.object, Property::Active) == Some(s.property)
                    &&& s.value == Value::<F>::Boolean(true)
                }
            &&& exists|k: int|
                {
                    let s = #[trigger] commit.settings@[k];
                    &&& 0 <= k < 13
                    &&& s.object == Object::Plane(drm.plane)
                    &&& drm.cache.handle_of(s.object, Property::FbId) == Some(s.property)
                    &&& s.value == Value::<F>::Handle(Some(framebuffer))
                }
            &&& exists|k: int|
                {
                    let s = #[trigger] commit.settings@[k];
                    &&& 0 <= k < 13
                    &&& s.object == Object::Connector(drm.connector)
                    &&& drm.cache.handle_of(s.object, Property::CrtcId) == Some(s.property)
                    &&& s.value == Value::<F>::Handle(Some(drm.crtc))
                }
            &&& exists|k: int|
                {
                    let s = #[trigger] commit.settings@[k];
                    &&& 0 <= k < 13
                    &&& s.object == Object::Plane(drm.plane)
                    &&& drm.cache.handle_of(s.object, Property::CrtcId) == Some(s.property)
                    &&& s.value == Value::<F>::Handle(Some(drm.crtc))
                }
        }),
{
    let all = modeset_assignments::<F>(drm, framebuffer);
    commits_set_what_is_asked(drm.cache, all, ALLOW_MODESET, r);
    let commit = r->Ok_0;
    assert(commit.settings@[0].object == all[0].object);
    assert(commit.settings@[1].object == all[1].object);
    assert(commit.settings@[2].object == all[2].object);
    assert(commit.settings@[3].object == all[3].object);
    assert(commit.settings@[4].object == all[4].object);
}

/// The request that shows another framebuffer sets, to this and to nothing else: the
/// framebuffer of the plane, the fence that the plane waits for, and where
/// the fence of the CRTC goes; each of them once.
pub proof fn flips_set_the_framebuffer_and_the_fences<F>(
    drm: DrmState,
    framebuffer: u32,
    fence: Option<F>,
    a: Assignment<F>,
)
    ensures
        flip_assignments(drm, framebuffer, fence).len() == 3,
        flip_assignments(drm, framebuffer, fence).no_duplicates(),
        flip_assignments(drm, framebuffer, fence).contains(a) <==> match a.property {
            Property::FbId => {
                &&& a.object == Object::Plane(drm.plane)
                &&& a.value == Value::<F>::Handle(Some(framebuffer))
            },
            Property::InFenceFd => {
                &&& a.object == Object::Plane(drm.plane)
                &&& a.value == Value::<F>::InFence(fence)
            },
            Property::OutFencePtr => {
                &&& a.object == Object::Crtc(drm.crtc)
                &&& a.value == Value::<F>::OutFence
            },
            _ => false,
        },
{
    let all = flip_assignments(drm, framebuffer, fence);
    assert(all[0].property == Property::FbId);
    assert(all[1].property == Property::InFenceFd);
    assert(all[2].property == Property::OutFencePtr);
    if all.contains(a) {
        let k = all.index_of(a);
        assert(all[k] == a);
    }
    if a == all[0] || a == all[1] || a == all[2] {
        assert(all.contains(a));
    }
}

/// A buffer is shown with the fence that it handed out, and without waiting for the
/// flip. It is shown exactly where it handed out its fence, or none, and nothing
/// that has to be set is missing; else what went wrong is told.
pub proof fn flips_wait_for_the_fence_of_the_buffer<B: Backend>(
    drm: DrmState,
    frame_i: usize,
    framebuffer: u32,
    exported: Result<Option<FenceOf<B>>, B::Error>,
    r: Result<FlipStep<FenceOf<B>>, ScanoutError<B>>,
)
    requires
        shows(drm, frame_i, framebuffer, exported, r),
    ensures
        ({
            let plane = Object::Plane(drm.plane);
            let crtc = Object::Crtc(drm.crtc);
            let (fb, wait, signal) = (
                drm.cache.handle_of(plane, Property::FbId),
                drm.cache.handle_of(plane, Property::InFenceFd),
                drm.cache.handle_of(crtc, Property::OutFencePtr),
            );
            &&& r is Ok <==> exported is Ok && fb is Some && wait is Some && signal is Some
            &&& match r {
                Ok(FlipStep::Commit { frame_i: shown, commit }) => {
                    &&& shown == frame_i
                    &&& commit.flags == 0x201
                    &&& commit.settings@ == seq![
                        Setting {
                            object: plane,
                            property: fb->Some_0,
                            value: Value::Handle(Some(framebuffer)),
                        },
                        Setting {
                            object: plane,
                            property: wait->Some_0,
                            value: Value::InFence(exported->Ok_0),
                        },
                        Setting { object: crtc, property: signal->Some_0, value: Value::OutFence },
                    ]
                },
                Ok(FlipStep::Idle) => false,
                Err(ScanoutError::Backend(e)) => exported == Err::<Option<FenceOf<B>>, B::Error>(e),
                Err(ScanoutError::Modeset(ModesetError::AtomicReq(e))) => exported is Ok && e
                    == AtomicReqError::MissingProperty {
                    object: if fb is Some && wait is Some {
                        crtc
                    } else {
                        plane
                    },
                    property: if fb is None {
                        Property::FbId
                    } else if wait is None {
                        Property::InFenceFd
                    } else {
                        Property::OutFencePtr
                    },
                },
                Err(_) => false,
            }
        }),
{
    if let Ok(fence) = exported {
        let all = flip_assignments(drm, framebuffer, fence);
        let cache = drm.cache;
        atomic_req::requests_set_what_is_asked(cache, all);
        atomic_req::requests_need_their_properties(cache, all);
        assert(all[0].property == Property::FbId && all[1].property == Property::InFenceFd
            && all[2].property == Property::OutFencePtr);
        if cache.handle_of(all[0].object, all[0].property) is None {
            atomic_req::the_first_missing_property_is_told(cache, all, 0);
        } else if cache.handle_of(all[1].object, all[1].property) is None {
            atomic_req::the_first_missing_property_is_told(cache, all, 1);
        } else if cache.handle_of(all[2].object, all[2].property) is None {
            atomic_req::the_first_missing_property_is_told(cache, all, 2);
        }
        if let Ok(FlipStep::Commit { frame_i, commit }) = r {
            assert(commit.settings@[0].object == all[0].object);
            assert(commit.settings@[1].object == all[1].object);
            assert(commit.settings@[2].object == all[2].object);
        }
    }
}

/// The fence of a buffer is taken only where its framebuffer can be set, and the
/// buffer is then shown with that fence.
pub proof fn fences_are_taken_to_be_waited_for<B: Backend, F: FnOnce(u32)>(
    drm: DrmState,
    frame_i: usize,
    before: ScanoutBuffer<B, F>,
    after: ScanoutBuffer<B, F>,
    r: Result<FlipStep<FenceOf<B>>, ScanoutError<B>>,
)
    requires
        flip_outcome(drm, frame_i, before, after, r),
    ensures
        drm.cache.handle_of(Object::Plane(drm.plane), Property::FbId) is None ==> r is Err && after
            == before,
        r is Ok ==> drm.cache.handle_of(Object::Plane(drm.plane), Property::InFenceFd) is Some
            && drm.cache.handle_of(Object::Crtc(drm.crtc), Property::OutFencePtr) is Some,
        match r {
            Ok(FlipStep::Idle) => false,
            Ok(FlipStep::Commit { frame_i: shown, commit }) => {
                &&& shown == frame_i
                &&& commit.settings@.len() == 3
                &&& commit.settings@[0].value == Value::<FenceOf<B>>::Handle(
                    Some(before.framebuffer.value()),
                )
                &&& commit.flags == 0x201
                &&& commit.settings@[0].object == Object::Plane(drm.plane)
                &&& commit.settings@[1].object == Object::Plane(drm.plane)
                &&& commit.settings@[2].object == Object::Crtc(drm.crtc)
                &&& commit.settings@[2].value is OutFence
                &&& commit.settings@[1].value is InFence
                &&& before.backend.exported(
                    after.backend,
                    Ok::<Option<FenceOf<B>>, B::Error>(commit.settings@[1].value->InFence_0),
                )
            },
            Err(ScanoutError::Backend(e)) => before.backend.exported(
                after.backend,
                Err::<Option<FenceOf<B>>, B::Error>(e),
            ),
            Err(ScanoutError::Modeset(ModesetError::AtomicReq(
                AtomicReqError::MissingProperty { object, property },
            ))) => {
                &&& drm.cache.handle_of(object, property) is None
                &&& property is FbId || property is InFenceFd ==> object == Object::Plane(drm.plane)
                &&& property is OutFencePtr ==> object == Object::Crtc(drm.crtc)
                &&& property is FbId <==> drm.cache.handle_of(
                    Object::Plane(drm.plane),
                    Property::FbId,
                ) is None
                &&& property is FbId || property is InFenceFd || property is OutFencePtr
            },
            Err(_) => false,
        },
{
    if drm.cache.handle_of(Object::Plane(drm.plane), Property::FbId) is Some {
        let exported = choose|exported: Result<Option<FenceOf<B>>, B::Error>|
            {
                &&& #[trigger] before.backend.exported(after.backend, exported)
                &&& shows(drm, frame_i, before.framebuffer.value(), exported, r)
            };
        flips_wait_for_the_fence_of_the_buffer::<B>(
            drm,
            frame_i,
            before.framebuffer.value(),
            exported,
            r,
        );
    }
}

/// An output that is put together has drawn nothing, has the three buffers in their
/// order, and sets the CRTC back to what it was when it is given up. There is one
/// exactly where all three buffers could be made and the display can be turned on;
/// else the first of these that failed is told.
pub proof fn outputs_hold_what_they_are_made_of<
    B: Backend,
    F: FnOnce(u32),
    R: FnOnce(CrtcRequest),
>(
    drm: DrmState,
    backend: B,
    set_crtc: R,
    b1: Result<ScanoutBuffer<B, F>, ScanoutError<B>>,
    b2: Result<ScanoutBuffer<B, F>, ScanoutError<B>>,
    b3: Result<ScanoutBuffer<B, F>, ScanoutError<B>>,
    r: Result<(BufferedOutput<B, F, R>, Commit<FenceOf<B>>), ScanoutError<B>>,
)
    requires
        put_together(drm, backend, set_crtc, b1, b2, b3, r),
    ensures
        b1 is Err ==> r is Err && r->Err_0 == b1->Err_0,
        b1 is Ok && b2 is Err ==> r is Err && r->Err_0 == b2->Err_0,
        b1 is Ok && b2 is Ok && b3 is Err ==> r is Err && r->Err_0 == b3->Err_0,
        b1 is Ok && b2 is Ok && b3 is Ok && r is Err ==> {
            let settings = drm.cache.resolved(
                modeset_assignments::<FenceOf<B>>(drm, b1->Ok_0.framebuffer.value()),
            );
            &&& settings is Err
            &&& r->Err_0 == ScanoutError::<B>::Modeset(ModesetError::AtomicReq(settings->Err_0))
        },
        r is Ok ==> {
            let (output, commit) = r->Ok_0;
            let restore = output.restore;
            &&& b1 is Ok && b2 is Ok && b3 is Ok
            &&& output.frame == 0 && output.queue@.len() == 0
            &&& output.drm == drm && output.backend == backend
            &&& output.buffers@.len() == 3
            &&& output.buffers@[0] == b1->Ok_0
            &&& output.buffers@[1] == b2->Ok_0
            &&& output.buffers@[2] == b3->Ok_0
            &&& restore.armed() && restore.cleanup() == set_crtc
            &&& restore.value().crtc == drm.crtc && restore.value().connector == drm.connector
            &&& restore.value().framebuffer == drm.previous_state.framebuffer
            &&& restore.value().position == drm.previous_state.position
            &&& restore.value().mode == drm.previous_state.mode
            &&& commit.flags == 0x400
            &&& drm.cache.resolved(
                modeset_assignments::<FenceOf<B>>(drm, b1->Ok_0.framebuffer.value()),
            ) == Ok::<Seq<Setting<FenceOf<B>>>, AtomicReqError>(commit.settings@)
        },
{
}

/// The state that an output starts from is that of its pipeline and of what was
/// before, with the modifiers that the renderer offers and the plane names.
pub proof fn outputs_start_from_what_is_given<B: Backend>(
    backend: B,
    pipeline: Pipeline,
    cache: AtomicRequestCache,
    read: Result<format_modifier::BlobContents, DrmFormatParseError>,
    previous_state: Result<CrtcState, std::io::Error>,
    r: Result<(DrmState, bool), ScanoutError<B>>,
)
    requires
        configured(backend, pipeline, cache, read, previous_state, r),
    ensures
        r is Ok <==> read is Ok && previous_state is Ok,
        match r {
            Ok((drm, fallback)) => {
                &&& drm.cache == cache
                &&& drm.crtc == pipeline.crtc && drm.plane == pipeline.plane
                &&& drm.mode == pipeline.mode && drm.connector == pipeline.connector
                &&& drm.format == pipeline.format
                &&& drm.previous_state == previous_state->Ok_0
                &&& drm.modifiers@.len() > 0
                &&& fallback ==> drm.modifiers@ == seq![0u64]
                &&& forall|i: int, j: int|
                    0 <= i < j < drm.modifiers@.len() ==> drm.modifiers@[i] != drm.modifiers@[j]
                &&& exists|offered: Set<u64>|
                    {
                        let named = format_modifier::modifiers_of(read->Ok_0, pipeline.format.0);
                        &&& #[trigger] backend.offered(pipeline.format, offered)
                        &&& !fallback ==> forall|m: u64|
                            #[trigger] drm.modifiers@.contains(m) <==> offered.contains(m)
                                && named.contains(m) && m != 0x00ff_ffff_ffff_ffff
                        &&& fallback <==> forall|m: u64|
                            offered.contains(m) && m != 0x00ff_ffff_ffff_ffff
                                ==> !#[trigger] named.contains(m)
                    }
            },
            Err(ScanoutError::DrmFormat(e)) => read == Err::<
                format_modifier::BlobContents,
                DrmFormatParseError,
            >(e),
            Err(ScanoutError::Io(e)) => read is Ok && previous_state == Err::<
                CrtcState,
                std::io::Error,
            >(e),
            Err(_) => false,
        },
{
    if let Ok((drm, fallback)) = r {
        let supported = modifiers::plane_modifiers(read->Ok_0, pipeline.format.0);
        let named = format_modifier::modifiers_of(read->Ok_0, pipeline.format.0);
        let offered = choose|offered: Set<u64>|
            {
                &&& #[trigger] backend.offered(pipeline.format, offered)
                &&& modifiers::usable(offered, supported, drm.modifiers@)
                &&& fallback == offered.disjoint(supported)
            };
        modifiers::agreement_is_mutual(offered, supported, drm.modifiers@);
        assert(forall|m: u64|
            supported.contains(m) <==> #[trigger] named.contains(m) && m != 0x00ff_ffff_ffff_ffff);
        if fallback {
            assert(offered.intersect(supported) =~= Set::empty());
        }
    }
}

/// However the turns go, the frames take the three buffers in turn, from the first one
/// on, and the oldest frame that waits is shown next.
pub proof fn three_buffers_take_turns(turns: Seq<Turn>)
    ensures
        ({
            let (rotation, shown) = played(turns);
            let (drawn, drawn_shown) = played(turns.push(Turn::Draw));
            let (asked, asked_shown) = played(turns.push(Turn::Show));
            let next = rotation.frame - rotation.queue.len();
            &&& played(Seq::empty()).0.frame == 0
            &&& played(Seq::empty()).0.queue.len() == 0
            &&& rotation.drawn_next() == rotation.frame % 3
            &&& drawn.frame == rotation.frame + 1
            &&& drawn.queue.len() == rotation.queue.len() + 1
            &&& drawn.queue.last().frame_i == rotation.frame % 3
            &&& drawn_shown == shown
            &&& asked.frame == rotation.frame
            &&& next == shown.len()
            &&& rotation.queue.len() == 0 ==> asked_shown == shown
            &&& rotation.queue.len() > 0 ==> {
                &&& asked_shown == shown.push((next % 3) as usize)
                &&& asked.queue.len() == rotation.queue.len() - 1
            }
        }),
{
    assert(turns.push(Turn::Draw).drop_last() =~= turns);
    assert(turns.push(Turn::Show).drop_last() =~= turns);
    frames_are_shown_in_order(turns);
}

/// An output that was given up has set the CRTC back, and has destroyed the framebuffer
/// of each of its buffers, as far as that was still to be done; and it can be given up
/// where this can be done.
pub proof fn outputs_owe_all_their_cleanups<B: Backend, F: FnOnce(u32), R: FnOnce(CrtcRequest)>(
    output: BufferedOutput<B, F, R>,
)
    ensures
        output.disposed() <==> {
            &&& output.restore.armed() ==> output.restore.cleanup().ensures(
                (output.restore.value(),),
                (),
            )
            &&& forall|k: int|
                0 <= k < 3 && (#[trigger] output.buffers@[k]).framebuffer.armed()
                    ==> output.buffers@[k].framebuffer.cleanup().ensures(
                    (output.buffers@[k].framebuffer.value(),),
                    (),
                )
        },
        output.disposable() <==> {
            &&& output.restore.armed() ==> output.restore.cleanup().requires(
                (output.restore.value(),),
            )
            &&& forall|k: int|
                0 <= k < 3 && (#[trigger] output.buffers@[k]).framebuffer.armed()
                    ==> output.buffers@[k].framebuffer.cleanup().requires(
                    (output.buffers@[k].framebuffer.value(),),
                )
        },
{
}

/// Where one buffer was worked on, the others are as they were, and it is still shown by
/// the same framebuffer of the same buffer object.
pub proof fn only_one_buffer_is_worked_on<B: Backend, F: FnOnce(u32), R: FnOnce(CrtcRequest)>(
    after: BufferedOutput<B, F, R>,
    before: BufferedOutput<B, F, R>,
    worked_on: int,
    k: int,
)
    requires
        0 <= worked_on < 3,
        0 <= k < 3,
        after.buffers_kept(&before, worked_on),
    ensures
        k != worked_on ==> after.buffers@[k] == before.buffers@[k],
        after.buffers@[k].framebuffer == before.buffers@[k].framebuffer,
        after.buffers@[k].buffer_object == before.buffers@[k].buffer_object,
{
}

} // verus!
