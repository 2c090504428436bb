use compositor::drmx::atomic_req::{
    AtomicReqError, AtomicRequest, AtomicRequestCache, Commit, Fixed16, Object, ObjectProperties,
    Property, Setting, Value,
};
use compositor::drmx::fourcc::XRGB8888;
use compositor::drmx::mode::CrtcState;
use compositor::drmx::property::NamedProperty;
use compositor::drmx::{Format, Mode};
use compositor::format_modifier::{drm_format_modifier_blob, DrmFormatParseError};
use compositor::modifiers::{
    drm_modifiers, in_formats_blob, modifiers_read, negotiate, usable_modifiers, INVALID, LINEAR,
};
use compositor::output::{
    configure, out_fence, BufferedOutput, FlipStep, OutputRelease, ScanoutRequest,
};
use compositor::scanout::{
    Allocated, Backend, BackendBuffer, BufferFlags, CrtcRequest, DrmState, ModesetError, Pipeline,
    Poll, ScanoutBuffer, ScanoutError,
};
use compositor::utils::Guard;
use std::cell::{Cell, RefCell};
use std::collections::{HashSet, VecDeque};
use std::io;
use std::rc::Rc;

/// A renderer that notes what it is asked, and answers as it is told.
#[derive(Debug)]
struct Fake {
    offers: Vec<u64>,
    drawn: Vec<(u32, usize)>,
    answers: VecDeque<Result<Poll, &'static str>>,
    _end: Option<End>,
}

/// Notes when it is let go.
#[derive(Debug)]
struct End(Log);

impl Drop for End {
    fn drop(&mut self) {
        self.0.borrow_mut().push("renderer".to_string());
    }
}

/// What was given up, in its order.
type Log = Rc<RefCell<Vec<String>>>;

#[derive(Debug)]
struct FakeBuffer {
    id: u32,
    fences: Vec<i32>,
    export: Result<Option<i32>, &'static str>,
    import: Result<(), &'static str>,
}

impl Backend for Fake {
    type Error = &'static str;
    type Card = Result<Vec<u64>, &'static str>;
    type BufferObject = Result<u32, &'static str>;
    type Buffer = FakeBuffer;

    fn new(card: &Self::Card) -> Result<Self, Self::Error> {
        let offers = card.clone()?;
        Ok(Fake { offers, ..fake() })
    }

    fn modifiers(&self, _: Format) -> HashSet<u64> {
        self.offers.iter().copied().collect()
    }

    fn new_buffer(&self, _: &DrmState, bo: &Self::BufferObject) -> Result<FakeBuffer, Self::Error> {
        Ok(FakeBuffer { id: (*bo)?, fences: vec![], export: Ok(Some(77)), import: Ok(()) })
    }

    fn render(&mut self, buffer: &mut FakeBuffer, frame: usize) -> Result<Poll, Self::Error> {
        self.drawn.push((buffer.id, frame));
        self.answers.pop_front().unwrap_or(Ok(Poll::Ready))
    }
}

impl BackendBuffer for FakeBuffer {
    type Error = &'static str;
    type Fence = i32;

    fn import_sync(&mut self, fence: i32) -> Result<(), Self::Error> {
        self.fences.push(fence);
        self.import
    }

    fn export_sync(&mut self) -> Result<Option<i32>, Self::Error> {
        self.export
    }
}

fn mode() -> Mode {
    Mode {
        clock: 1,
        hdisplay: 1920,
        hsync_start: 0,
        hsync_end: 0,
        htotal: 0,
        hskew: 0,
        vdisplay: 1080,
        vsync_start: 0,
        vsync_end: 0,
        vtotal: 0,
        vscan: 0,
        vrefresh: 60,
        flags: 0,
        mode_type: 8,
        name: [0; 32],
    }
}

fn properties(object: Object, first_id: u32, names: &[&str]) -> ObjectProperties {
    let properties = names
        .iter()
        .enumerate()
        .map(|(i, name)| NamedProperty {
            id: first_id + i as u32,
            name: Some(name.to_string()),
            value: 0,
        })
        .collect();
    ObjectProperties { object, properties }
}

const PLANE: [&str; 11] = [
    "FB_ID",
    "CRTC_ID",
    "SRC_X",
    "SRC_Y",
    "SRC_W",
    "SRC_H",
    "CRTC_X",
    "CRTC_Y",
    "CRTC_W",
    "CRTC_H",
    "IN_FENCE_FD",
];

fn cache(plane: &[&str]) -> AtomicRequestCache {
    AtomicRequestCache {
        objects: vec![
            properties(Object::Connector(3), 300, &["CRTC_ID"]),
            properties(Object::Crtc(1), 100, &["ACTIVE", "MODE_ID", "OUT_FENCE_PTR"]),
            properties(Object::Plane(2), 200, plane),
        ],
    }
}

const PREVIOUS: CrtcState = CrtcState { framebuffer: Some(8), position: (4, 5), mode: None };

fn drm(plane: &[&str]) -> DrmState {
    let pipeline =
        Pipeline { crtc: 1, plane: 2, mode: mode(), connector: 3, format: Format(XRGB8888) };
    match DrmState::new::<Fake>(pipeline, cache(plane), vec![LINEAR], Ok(PREVIOUS)) {
        Ok(drm) => drm,
        Err(_) => panic!("the state of the CRTC is known"),
    }
}

type Destroy = Box<dyn FnOnce(u32)>;
type Reset = Box<dyn FnOnce(CrtcRequest)>;
type Output = BufferedOutput<Fake, Destroy, Reset>;

/// A buffer object and its framebuffer.
fn allocated(log: &Log, bo: Result<u32, &'static str>) -> Allocated<Fake, Destroy> {
    let log = log.clone();
    let destroy: Destroy = Box::new(move |fb| log.borrow_mut().push(fb.to_string()));
    Ok((bo, Guard::new(1000 + bo.unwrap_or(9), destroy)))
}

/// What the device could not allocate.
fn refused(errno: i32) -> Allocated<Fake, Destroy> {
    Err(io::Error::from_raw_os_error(errno))
}

fn reset(log: &Log) -> Reset {
    let log = log.clone();
    Box::new(move |request| log.borrow_mut().push(format!("CRTC {}", request.crtc)))
}

fn fake() -> Fake {
    Fake { offers: vec![], drawn: vec![], answers: VecDeque::new(), _end: None }
}

fn made(log: &Log, plane: &[&str]) -> Result<(Output, Commit<i32>), ScanoutError<Fake>> {
    BufferedOutput::new(
        drm(plane),
        Fake { _end: Some(End(log.clone())), ..fake() },
        reset(log),
        allocated(log, Ok(0)),
        allocated(log, Ok(1)),
        allocated(log, Ok(2)),
    )
}

/// An output whose plane may lack what only a flip needs.
fn output(plane: &[&str]) -> Output {
    match made(&Log::default(), &PLANE) {
        Ok((output, _)) => BufferedOutput { drm: drm(plane), ..output },
        Err(_) => panic!("all buffers can be made"),
    }
}

fn shown(output: &mut Output) -> Option<usize> {
    match output.flip() {
        Ok(FlipStep::Idle) => None,
        Ok(FlipStep::Commit { frame_i, .. }) => Some(frame_i),
        Err(_) => panic!("the flip can be asked for"),
    }
}

#[test]
fn a_new_output_has_drawn_nothing() {
    let output = output(&PLANE);
    assert_eq!(output.frame, 0);
    assert!(output.queue.is_empty());
    assert_eq!(*output.buffers[2].framebuffer, 1002);
    assert_eq!(*output.restore, output.drm.restore());
    assert_eq!(output.buffers[2].backend.id, 2);
    assert_eq!(output.drm.previous_state, PREVIOUS);
}

/// The error of an output that cannot be put together, and what was given up.
fn failed(
    buffers: [fn(&Log) -> Allocated<Fake, Destroy>; 3],
) -> (ScanoutError<Fake>, Vec<String>) {
    let log = Log::default();
    let [a1, a2, a3] = buffers.map(|buffer| buffer(&log));
    let output = BufferedOutput::new(drm(&PLANE), fake(), reset(&log), a1, a2, a3);
    let error = match output {
        Err(e) => e,
        Ok(_) => panic!("a buffer failed"),
    };
    let given_up = log.borrow().clone();
    (error, given_up)
}

#[test]
fn the_first_buffer_that_fails_is_reported() {
    let code = |buffers| match failed(buffers).0 {
        ScanoutError::Io(e) => e.raw_os_error(),
        _ => panic!("nothing was allocated"),
    };
    assert_eq!(code([|_| refused(1), |_| refused(2), |_| refused(3)]), Some(1));
    assert_eq!(code([|log| allocated(log, Ok(0)), |_| refused(2), |_| refused(3)]), Some(2));
    let two: [fn(&Log) -> Allocated<Fake, Destroy>; 3] =
        [|log| allocated(log, Ok(0)), |log| allocated(log, Ok(1)), |_| refused(3)];
    assert_eq!(code(two), Some(3));
}

#[test]
fn no_framebuffer_outlives_a_buffer_that_fails() {
    let (_, given_up) = failed([|_| refused(1), |log| allocated(log, Ok(1)), |log| {
        allocated(log, Ok(2))
    }]);
    assert_eq!(given_up, ["1002", "1001", "CRTC 1"]);
    let (_, given_up) = failed([|log| allocated(log, Ok(0)), |_| refused(2), |log| {
        allocated(log, Ok(2))
    }]);
    assert_eq!(given_up, ["1000", "1002", "CRTC 1"]);
    let (_, given_up) = failed([|log| allocated(log, Ok(0)), |log| allocated(log, Ok(1)), |_| {
        refused(3)
    }]);
    assert_eq!(given_up, ["1001", "1000", "CRTC 1"]);
    let (error, given_up) = failed([
        |log| allocated(log, Ok(0)),
        |log| allocated(log, Err("no image")),
        |log| allocated(log, Ok(2)),
    ]);
    assert!(matches!(error, ScanoutError::Backend("no image")));
    assert_eq!(given_up, ["1009", "1000", "1002", "CRTC 1"]);
}

const ALL: [&str; 5] = ["CRTC 1", "renderer", "1000", "1001", "1002"];

#[test]
fn an_output_starts_once_the_display_is_on() {
    let log = Log::default();
    let (output, commit) = made(&log, &PLANE).ok().unwrap();
    assert_eq!(commit, output.modeset().unwrap());
    let output = output.start(Ok(())).ok().unwrap();
    assert_eq!(output.frame, 0);
    assert!(log.borrow().is_empty());
    output.drop();
    assert_eq!(*log.borrow(), ALL);
}

#[test]
fn an_output_that_cannot_start_is_given_up() {
    let log = Log::default();
    let (output, _) = made(&log, &PLANE).ok().unwrap();
    match output.start(Err(io::Error::from_raw_os_error(14))) {
        Err(ScanoutError::Modeset(ModesetError::Io(e))) => assert_eq!(e.raw_os_error(), Some(14)),
        _ => panic!("the commit failed"),
    }
    assert_eq!(*log.borrow(), ALL);

    let log = Log::default();
    match made(&log, &PLANE[1..]) {
        Err(ScanoutError::Modeset(ModesetError::AtomicReq(e))) => assert_eq!(
            e,
            AtomicReqError::MissingProperty { object: Object::Plane(2), property: Property::FbId }
        ),
        _ => panic!("FB_ID is missing"),
    }
    assert_eq!(*log.borrow(), ALL);
}

#[test]
fn an_output_is_given_up_piece_by_piece() {
    let log = Log::default();
    let (output, _) = made(&log, &PLANE).ok().unwrap();
    let order = output.releases();
    assert_eq!(
        order,
        vec![
            OutputRelease::Crtc(output.drm.restore()),
            OutputRelease::Renderer,
            OutputRelease::Framebuffer(1000),
            OutputRelease::Framebuffer(1001),
            OutputRelease::Framebuffer(1002),
        ]
    );
    let mut rest = output.dismantle();
    for (i, release) in order.into_iter().enumerate() {
        rest.release(release);
        assert_eq!(*log.borrow(), ALL[..i + 1]);
    }
}

#[test]
fn an_output_starts_from_what_is_agreed_on() {
    let pipeline =
        Pipeline { crtc: 1, plane: 2, mode: mode(), connector: 3, format: Format(XRGB8888) };
    let configured = |offers, in_formats, state| {
        let backend = Fake { offers, ..fake() };
        configure(&backend, pipeline, cache(&PLANE), in_formats, state)
    };
    let (drm, fallback) = configured(vec![6, 9], Some(blob(&[5, 6])), Ok(PREVIOUS)).unwrap();
    assert_eq!((drm.modifiers, fallback), (vec![6], false));
    assert_eq!((drm.crtc, drm.plane, drm.connector), (1, 2, 3));
    assert_eq!((drm.mode, drm.format, drm.previous_state), (mode(), Format(XRGB8888), PREVIOUS));
    let (drm, fallback) = configured(vec![9], Some(blob(&[5])), Ok(PREVIOUS)).unwrap();
    assert_eq!((drm.modifiers, fallback), (vec![LINEAR], true));
    let refused = || Err(io::Error::from_raw_os_error(13));
    assert!(matches!(configured(vec![], None, refused()), Err(ScanoutError::CannotGetDrmFormats)));
    assert!(matches!(
        configured(vec![], Some(vec![]), refused()),
        Err(ScanoutError::DrmFormat(DrmFormatParseError::MissingHeader))
    ));
    assert!(matches!(configured(vec![], Some(blob(&[5])), refused()), Err(ScanoutError::Io(_))));
}

#[test]
fn errors_tell_their_users_what_is_wrong() {
    let error = ScanoutError::<Fake>::CannotGetDrmFormats;
    assert_eq!(error.message().as_deref(), Some("cannot get supported formats"));
    assert_eq!(format!("{error:?}"), "CannotGetDrmFormats");
    let error = ScanoutError::<Fake>::DrmFormat(DrmFormatParseError::Overflow);
    assert_eq!(error.message().as_deref(), Some("overflow in pointer arithmetic"));
    assert_eq!(format!("{error:?}"), "DrmFormat(Overflow)");
    let error = ScanoutError::<Fake>::Backend("lost");
    assert_eq!(error.message(), None);
    assert_eq!(format!("{error:?}"), "Backend(\"lost\")");
}

#[test]
fn a_buffer_destroys_its_framebuffer_once() {
    let log = Log::default();
    let Ok(mut buffer) = ScanoutBuffer::new(&drm(&PLANE), &fake(), allocated(&log, Ok(3))) else {
        panic!("the buffer can be made");
    };
    assert!(log.borrow().is_empty());
    buffer.drop();
    buffer.drop();
    assert_eq!(*log.borrow(), ["1003"]);
    assert_eq!(*buffer.framebuffer, 1003);
}

#[test]
fn errors_keep_what_they_come_from() {
    let io = || io::Error::from_raw_os_error(15);
    let missing =
        AtomicReqError::MissingProperty { object: Object::Crtc(1), property: Property::Active };
    assert!(matches!(ScanoutError::<Fake>::from(io()), ScanoutError::Io(_)));
    assert!(matches!(
        ScanoutError::<Fake>::from(DrmFormatParseError::Overflow),
        ScanoutError::DrmFormat(DrmFormatParseError::Overflow)
    ));
    assert!(matches!(
        ScanoutError::<Fake>::from(ModesetError::from(io())),
        ScanoutError::Modeset(ModesetError::Io(_))
    ));
    assert!(matches!(ModesetError::from(missing), ModesetError::AtomicReq(e) if e == missing));
}

#[test]
fn a_framebuffer_is_given_up_where_the_backend_fails() {
    let destroyed = Cell::new(0);
    let guard = Guard::new(55, |fb| destroyed.set(fb));
    match ScanoutBuffer::new(&drm(&PLANE), &fake(), Ok((Err("no image"), guard))) {
        Err(ScanoutError::Backend("no image")) => (),
        _ => panic!("the backend failed"),
    }
    assert_eq!(destroyed.get(), 55);
    let prepared = FakeBuffer { id: 4, fences: vec![], export: Ok(None), import: Ok(()) };
    let kept = Guard::new(56, |fb| destroyed.set(fb));
    let buffer = ScanoutBuffer::<Fake, _>::finish(Ok(4), kept, Ok(prepared)).ok().unwrap();
    assert_eq!((*buffer.framebuffer, buffer.backend.id, destroyed.get()), (56, 4, 55));
    match ScanoutBuffer::<Fake, _>::new(&drm(&PLANE), &fake(), refused(12)) {
        Err(ScanoutError::Io(e)) => assert_eq!(e.raw_os_error(), Some(12)),
        _ => panic!("nothing was allocated"),
    }
}

#[test]
fn a_renderer_that_cannot_be_opened_is_reported() {
    assert_eq!(Output::open(&Ok(vec![4])).ok().unwrap().offers, vec![4]);
    match Output::open(&Err("no device")) {
        Err(ScanoutError::Backend("no device")) => (),
        _ => panic!("there is no device"),
    }
}

#[test]
fn an_unknown_crtc_state_is_reported() {
    let pipeline =
        Pipeline { crtc: 1, plane: 2, mode: mode(), connector: 3, format: Format(XRGB8888) };
    let failed = Err(io::Error::from_raw_os_error(13));
    match DrmState::new::<Fake>(pipeline, cache(&PLANE), vec![], failed) {
        Err(ScanoutError::Io(e)) => assert_eq!(e.raw_os_error(), Some(13)),
        _ => panic!("the state of the CRTC is not known"),
    }
}

#[test]
fn buffers_have_the_size_of_the_mode() {
    let request = drm(&PLANE).buffer_request(BufferFlags::rendered());
    assert_eq!((request.width, request.height), (1920, 1080));
    assert_eq!(request.fourcc, XRGB8888);
    assert_eq!(request.modifiers, vec![LINEAR]);
    assert_eq!(request.flags, BufferFlags::rendered());
    assert!(request.flags.scanout && request.flags.rendering);
    assert!(!request.flags.linear && !request.flags.write);
}

#[test]
fn the_crtc_is_set_back_to_what_it_was() {
    let restored = drm(&PLANE).restore();
    assert_eq!(restored.crtc, 1);
    assert_eq!(restored.connector, 3);
    assert_eq!(restored.framebuffer, Some(8));
    assert_eq!(restored.position, (4, 5));
    assert_eq!(restored.mode, None);
}

#[test]
fn frames_are_drawn_to_the_buffers_in_turn() {
    let mut output = output(&PLANE);
    for _ in 0..4 {
        assert_eq!(output.render(), Ok(Poll::Ready));
    }
    assert_eq!(output.backend.drawn, vec![(0, 0), (1, 1), (2, 2), (0, 3)]);
    assert_eq!(output.frame, 4);
    let queue: Vec<usize> = output.queue.iter().map(|r| r.frame_i).collect();
    assert_eq!(queue, vec![0, 1, 2, 0]);
}

#[test]
fn a_frame_that_is_not_drawn_does_not_wait() {
    let mut output = output(&PLANE);
    output.backend.answers = VecDeque::from([Ok(Poll::Pending), Err("lost")]);
    assert_eq!(output.render(), Ok(Poll::Pending));
    assert_eq!(output.render(), Err("lost"));
    assert_eq!(output.frame, 0);
    assert!(output.queue.is_empty());
    assert_eq!(output.render(), Ok(Poll::Ready));
    assert_eq!(output.backend.drawn, vec![(0, 0), (0, 0), (0, 0)]);
    assert_eq!(output.queue, VecDeque::from([ScanoutRequest { frame_i: 0 }]));
}

#[test]
fn only_a_frame_that_was_drawn_counts() {
    let mut output = output(&PLANE);
    assert_eq!(output.note_drawn(Ok(Poll::Pending)), Ok(Poll::Pending));
    assert_eq!(output.note_drawn(Err("lost")), Err("lost"));
    assert_eq!((output.frame, output.queue.len()), (0, 0));
    for frame_i in [0, 1, 2, 0] {
        assert_eq!(output.note_drawn(Ok(Poll::Ready)), Ok(Poll::Ready));
        assert_eq!(output.queue.back(), Some(&ScanoutRequest { frame_i }));
    }
    assert_eq!((output.frame, output.queue.len()), (4, 4));
    assert!(output.backend.drawn.is_empty());
}

#[test]
fn what_the_renderer_answers_is_handed_on() {
    let opened = Output::opened;
    assert!(opened(Ok(fake())).is_ok());
    assert!(matches!(opened(Err("no device")), Err(ScanoutError::Backend("no device"))));
    let flipped = Output::flipped;
    assert!(matches!(flipped(Ok(())), Ok(Poll::Ready)));
    assert!(matches!(flipped(Err("no import")), Err(ScanoutError::Backend("no import"))));
    let output = output(&PLANE);
    assert!(matches!(output.show(2, Err("no fence")), Err(ScanoutError::Backend("no fence"))));
    match output.show(2, Ok(None)) {
        Ok(FlipStep::Commit { frame_i, commit }) => {
            assert_eq!(frame_i, 2);
            assert_eq!(commit.settings[0].value, Value::Handle(Some(1002)));
            assert_eq!(commit.settings[1].value, Value::InFence(None));
        }
        _ => panic!("the buffer can be shown"),
    }
}

#[test]
fn frames_are_shown_in_the_order_in_which_they_are_drawn() {
    let mut output = output(&PLANE);
    assert_eq!(shown(&mut output), None);
    let mut order = vec![];
    for draws in [2, 0, 3, 1] {
        for _ in 0..draws {
            output.render().unwrap();
        }
        order.extend(shown(&mut output));
    }
    while let Some(frame_i) = shown(&mut output) {
        order.push(frame_i);
    }
    assert_eq!(order, vec![0, 1, 2, 0, 1, 2]);
}

#[test]
fn the_modeset_request_turns_the_display_on() {
    let commit = output(&PLANE).modeset().unwrap();
    assert_eq!(commit.flags, 0x400);
    let plane = |property, value| Setting { object: Object::Plane(2), property, value };
    let crtc = |property, value| Setting { object: Object::Crtc(1), property, value };
    assert_eq!(
        commit.settings,
        vec![
            Setting { object: Object::Connector(3), property: 300, value: Value::Handle(Some(1)) },
            crtc(100, Value::Boolean(true)),
            crtc(101, Value::Mode(Some(mode()))),
            plane(201, Value::Handle(Some(1))),
            plane(200, Value::Handle(Some(1000))),
            plane(202, Value::Fixed(Fixed16(0))),
            plane(203, Value::Fixed(Fixed16(0))),
            plane(204, Value::Fixed(Fixed16(1920 << 16))),
            plane(205, Value::Fixed(Fixed16(1080 << 16))),
            plane(206, Value::Signed(0)),
            plane(207, Value::Signed(0)),
            plane(208, Value::Unsigned(1920)),
            plane(209, Value::Unsigned(1080)),
        ]
    );
}

#[test]
fn a_property_that_is_missing_is_reported() {
    match output(&PLANE[..4]).modeset() {
        Err(ModesetError::AtomicReq(e)) => assert_eq!(
            e,
            AtomicReqError::MissingProperty { object: Object::Plane(2), property: Property::SrcW }
        ),
        _ => panic!("SRC_W is missing"),
    }
    let request: AtomicRequest<i32> = AtomicRequest::new();
    let error = request.set(&cache(&PLANE), Object::Plane(9), Property::FbId, Value::Handle(None));
    assert_eq!(
        error.unwrap_err(),
        AtomicReqError::MissingProperty { object: Object::Plane(9), property: Property::FbId }
    );
    assert_eq!(Property::OutFencePtr.name(), "OUT_FENCE_PTR");
}

#[test]
fn the_flip_request_shows_the_buffer_once_it_is_drawn() {
    let mut output = output(&PLANE);
    output.render().unwrap();
    output.render().unwrap();
    shown(&mut output);
    let Ok(FlipStep::Commit { frame_i, commit }) = output.flip() else {
        panic!("the second frame waits");
    };
    assert_eq!(frame_i, 1);
    assert_eq!(commit.flags, 0x201);
    assert_eq!(
        commit.settings,
        vec![
            Setting { object: Object::Plane(2), property: 200, value: Value::Handle(Some(1001)) },
            Setting { object: Object::Plane(2), property: 210, value: Value::InFence(Some(77)) },
            Setting { object: Object::Crtc(1), property: 102, value: Value::OutFence },
        ]
    );
    assert!(matches!(output.finish_flip(1, Ok(99)), Ok(Poll::Ready)));
    assert_eq!(output.buffers[1].backend.fences, vec![99]);
    assert_eq!(output.buffers[0].backend.fences, Vec::<i32>::new());
}

#[test]
fn a_flip_that_fails_is_not_tried_again() {
    let mut failing = output(&PLANE);
    failing.render().unwrap();
    failing.buffers[0].backend.export = Err("no fence");
    assert!(matches!(failing.flip(), Err(ScanoutError::Backend("no fence"))));
    assert!(failing.queue.is_empty());
    failing.buffers[0].backend.import = Err("no import");
    assert!(matches!(failing.finish_flip(0, Ok(1)), Err(ScanoutError::Backend("no import"))));

    match failing.finish_flip(0, Err(io::Error::from_raw_os_error(16))) {
        Err(ScanoutError::Io(e)) => assert_eq!(e.raw_os_error(), Some(16)),
        _ => panic!("the commit failed"),
    }
    assert_eq!(failing.buffers[0].backend.fences, vec![1]);

    // Without FB_ID the fence is not even taken; without IN_FENCE_FD it is.
    for (names, missing) in [(&PLANE[1..], Property::FbId), (&PLANE[..10], Property::InFenceFd)] {
        let mut failing = output(names);
        failing.render().unwrap();
        match failing.flip() {
            Err(ScanoutError::Modeset(ModesetError::AtomicReq(e))) => assert_eq!(
                e,
                AtomicReqError::MissingProperty { object: Object::Plane(2), property: missing }
            ),
            _ => panic!("a property is missing"),
        }
        assert!(failing.queue.is_empty());
    }
}

#[test]
fn the_kernel_says_where_it_made_no_fence() {
    assert_eq!(out_fence(-1), None);
    assert_eq!(out_fence(0), Some(0));
    assert_eq!(out_fence(17), Some(17));
}

#[test]
fn the_blob_of_formats_is_found_by_its_name() {
    let property = |name: &str, value| NamedProperty { id: 1, name: Some(name.to_string()), value };
    let unnamed = NamedProperty { id: 1, name: None, value: 1 };
    let known = vec![unnamed, property("type", 2), property("IN_FORMATS", 3), property("IN_FORMATS", 4)];
    assert!(matches!(in_formats_blob::<Fake>(Ok(known)), Ok(3)));
    assert!(matches!(
        in_formats_blob::<Fake>(Ok(vec![property("type", 2)])),
        Err(ScanoutError::CannotGetDrmFormats)
    ));
    assert!(matches!(
        in_formats_blob::<Fake>(Err(io::Error::from_raw_os_error(1))),
        Err(ScanoutError::Io(_))
    ));
}

/// A blob that lists one format, with these modifiers.
fn blob(modifiers: &[u64]) -> Vec<u8> {
    let mut bytes = vec![];
    for word in [1, 0, 1, 24, modifiers.len() as u32, 28, XRGB8888] {
        bytes.extend_from_slice(&u32::to_ne_bytes(word));
    }
    for modifier in modifiers {
        bytes.extend_from_slice(&1u64.to_ne_bytes());
        bytes.extend_from_slice(&0u64.to_ne_bytes());
        bytes.extend_from_slice(&modifier.to_ne_bytes());
    }
    bytes
}

#[test]
fn a_plane_supports_what_its_blob_names_but_for_the_invalid_modifier() {
    let supported = |in_formats| drm_modifiers::<Fake>(in_formats, XRGB8888);
    assert_eq!(
        supported(Some(blob(&[5, INVALID, 6, 5]))).ok().unwrap(),
        HashSet::from([5, 6])
    );
    assert!(matches!(supported(None), Err(ScanoutError::CannotGetDrmFormats)));
    assert!(matches!(
        supported(Some(vec![])),
        Err(ScanoutError::DrmFormat(DrmFormatParseError::MissingHeader))
    ));
}

#[test]
fn what_was_read_of_the_blob_decides() {
    assert!(matches!(
        modifiers_read::<Fake>(None, XRGB8888),
        Err(ScanoutError::CannotGetDrmFormats)
    ));
    assert!(matches!(
        modifiers_read::<Fake>(Some(Err(DrmFormatParseError::Overflow)), XRGB8888),
        Err(ScanoutError::DrmFormat(DrmFormatParseError::Overflow))
    ));
    let read = drm_format_modifier_blob::read(&blob(&[5, INVALID]));
    assert_eq!(modifiers_read::<Fake>(Some(read), XRGB8888).ok().unwrap(), HashSet::from([5]));
}

#[test]
fn both_sides_have_to_know_a_modifier() {
    let mut common = usable_modifiers(&HashSet::from([1, 2, 3]), &HashSet::from([2, 3, 4]));
    common.sort();
    assert_eq!(common, vec![2, 3]);
    assert_eq!(usable_modifiers(&HashSet::from([1]), &HashSet::from([2])), vec![LINEAR]);
    assert_eq!(usable_modifiers(&HashSet::new(), &HashSet::from([2])), vec![0]);
}

#[test]
fn the_renderer_and_the_plane_agree() {
    let agreed = |offers, in_formats| {
        negotiate(&Fake { offers, ..fake() }, Format(XRGB8888), in_formats)
    };
    let agreement = agreed(vec![6, 9], Some(blob(&[5, 6]))).ok().unwrap();
    assert_eq!((agreement.modifiers, agreement.fallback), (vec![6], false));
    let agreement = agreed(vec![INVALID], Some(blob(&[INVALID]))).ok().unwrap();
    assert_eq!((agreement.modifiers, agreement.fallback), (vec![LINEAR], true));
    let agreement = agreed(vec![LINEAR], Some(blob(&[LINEAR]))).ok().unwrap();
    assert_eq!((agreement.modifiers, agreement.fallback), (vec![LINEAR], false));
    assert!(matches!(agreed(vec![], None), Err(ScanoutError::CannotGetDrmFormats)));
    assert!(matches!(
        agreed(vec![], Some(vec![0; 24])),
        Err(ScanoutError::DrmFormat(DrmFormatParseError::UnsupportedVersion { version: 0 }))
    ));
}
