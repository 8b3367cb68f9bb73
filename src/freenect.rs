use std::collections::VecDeque;
use vstd::prelude::*;

use crate::error::{outcome, status_result, FreenectError, FreenectErrorKind, FreenectResult};
use crate::frames::{
    delivered, kept_up, lemma_delivery_order, lemma_keeping_up_sees_all, offer_spec, replay,
    strictly_increasing, take_spec, timestamps, StreamEvent, DepthFrame, Frame, FrameQueue, VideoFrame, STREAM_CAPACITY};
use crate::modes::{
    FreenectDepthFormat, FreenectResolution, FreenectVideoFormat, DEVICE_CAMERA, DEVICE_MOTOR,
};
use crate::modes::{depth_format_code, resolution_code, video_format_code};
use crate::native::{
    frames_of, handle_of, mode_of, result_of, FreenectNative, NativeCall, NativeFrame, ERROR_INTERRUPTED,
};

verus! {

/// What the binding layer holds for one device it opened: whether it is still
/// open, its native handle, and the sender slot of each stream kind (empty,
/// or the frames buffered for the live stream of that kind).
pub struct DeviceView {
    pub open: bool,
    pub handle: u32,
    pub depth: Option<Seq<DepthFrame>>,
    pub video: Option<Seq<VideoFrame>>,
}

impl DeviceView {
    /// A slot is filled only on an open device, and buffers no more than the
    /// stream capacity.
    pub open spec fn wf(self) -> bool {
        &&& (self.depth matches Some(q) ==> q.len() <= STREAM_CAPACITY)
        &&& (self.video matches Some(q) ==> q.len() <= STREAM_CAPACITY)
        &&& (!self.open ==> self.depth is None && self.video is None)
    }

    pub open spec fn with_depth(self, depth: Option<Seq<DepthFrame>>) -> DeviceView {
        DeviceView { open: self.open, handle: self.handle, depth: depth, video: self.video }
    }

    pub open spec fn with_video(self, video: Option<Seq<VideoFrame>>) -> DeviceView {
        DeviceView { open: self.open, handle: self.handle, depth: self.depth, video: video }
    }
}

/// Whether the background processing thread's stop-signal sender and join
/// handle are held.
#[derive(Debug, Clone, Copy, PartialEq, Eq, Structural)]
pub struct ProcessState {
    pub stop_signal: bool,
    pub joiner: bool,
}

/// Spawning fails while a thread is running, that is while a stop signal is
/// held and still accepts a probe; otherwise a new signal and join handle are
/// held.
pub open spec fn spawn_spec(s: ProcessState, probe_accepted: bool) -> (
    Option<FreenectErrorKind>,
    ProcessState,
) {
    if s.stop_signal && probe_accepted {
        (Some(FreenectErrorKind::AlreadyRunning), s)
    } else {
        (None, ProcessState { stop_signal: true, joiner: true })
    }
}

/// Stopping drops the stop signal and hands out the join handle, if any:
/// the result says whether there is a thread to join.
pub open spec fn stop_spec(s: ProcessState) -> (bool, ProcessState) {
    (s.joiner, ProcessState { stop_signal: false, joiner: false })
}

/// Stopping the processing thread when none was started has nothing to join,
/// and stopping twice in a row is harmless: the second stop finds nothing to
/// join and changes nothing.
pub proof fn lemma_stop_idempotent(s: ProcessState)
    ensures
        !s.joiner ==> !stop_spec(s).0,
        !stop_spec(stop_spec(s).1).0,
        stop_spec(stop_spec(s).1).1 == stop_spec(s).1,
{
}

/// Whether the processing loop goes on after the event pump returned
/// `status`: it does unless the pump failed, an interrupted system call
/// being no failure.
pub open spec fn keeps_pumping(status: i32) -> bool {
    status >= 0 || status == ERROR_INTERRUPTED
}

/// What the processing loop observes when it polls its stop signal.
#[derive(Debug, Clone, Copy, PartialEq, Eq, Structural)]
pub enum StopSignal {
    /// The signal is connected and nothing was sent.
    Empty,
    /// The signal is connected and a probe was sent.
    Probed,
    /// The sender was dropped: the loop must exit.
    Disconnected,
}

/// Decides whether the processing loop calls the event pump again, given what
/// it observed on its stop signal and the status of the last pump call.
pub fn process_loop_continues(signal: StopSignal, last_status: i32) -> (go_on: bool)
    ensures
        go_on == (signal != StopSignal::Disconnected && keeps_pumping(last_status)),
{
    match signal {
        StopSignal::Disconnected => false,
        _ => last_status >= 0 || last_status == ERROR_INTERRUPTED,
    }
}

struct DeviceSlot {
    open: bool,
    handle: u32,
    depth: Option<FrameQueue<u16>>,
    video: Option<FrameQueue<u8>>,
}

impl DeviceSlot {
    spec fn view(&self) -> DeviceView {
        DeviceView {
            open: self.open,
            handle: self.handle,
            depth: match self.depth {
                Some(q) => Some(q@),
                None => None,
            },
            video: match self.video {
                Some(q) => Some(q@),
                None => None,
            },
        }
    }
}

/// A device opened within a context, named by its place in the context's
/// registry. Operations on it borrow the context that opened it.
pub struct FreenectDevice {
    index: usize,
}

impl FreenectDevice {
    /// The device's place in the registry of its context.
    pub closed spec fn id(&self) -> int {
        self.index as int
    }
}

/// The main point of interaction with the sensor: owns the native driver, the
/// registry of opened devices with their sender slots, and the bookkeeping of
/// the background processing thread.
pub struct FreenectContext<N> {
    native: N,
    use_video: bool,
    stop_signal: bool,
    thread_joiner: bool,
    devices: Vec<DeviceSlot>,
    calls: Ghost<Seq<NativeCall>>,
}

/// Every device of `reg` is well formed.
pub open spec fn registry_wf(reg: Seq<DeviceView>) -> bool {
    forall|d: int| 0 <= d < reg.len() ==> (#[trigger] reg[d]).wf()
}

proof fn lemma_update_wf(reg: Seq<DeviceView>, d: int, v: DeviceView)
    requires
        registry_wf(reg),
        v.wf(),
    ensures
        registry_wf(put(reg, d, v)),
{
    if 0 <= d < reg.len() {
        assert forall|e: int| 0 <= e < reg.len() implies (#[trigger] reg.update(d, v)[e]).wf() by {
            if e != d {
                assert(reg.update(d, v)[e] == reg[e]);
            }
        }
    }
}

proof fn lemma_same_slots_trans(a: Seq<DeviceView>, b: Seq<DeviceView>, c: Seq<DeviceView>)
    requires
        same_slots(a, b),
        same_slots(b, c),
    ensures
        same_slots(a, c),
{
    assert forall|d: int| 0 <= d < a.len() implies {
        &&& (#[trigger] a[d]).open == c[d].open
        &&& a[d].handle == c[d].handle
        &&& a[d].depth is Some == c[d].depth is Some
        &&& a[d].video is Some == c[d].video is Some
    } by {
        assert(b[d].open == c[d].open);
    }
}

/// Two registries that differ at most in the frames buffered.
pub open spec fn same_slots(a: Seq<DeviceView>, b: Seq<DeviceView>) -> bool {
    &&& a.len() == b.len()
    &&& forall|d: int|
        0 <= d < a.len() ==> {
            &&& (#[trigger] a[d]).open == b[d].open
            &&& a[d].handle == b[d].handle
            &&& a[d].depth is Some == b[d].depth is Some
            &&& a[d].video is Some == b[d].video is Some
        }
}

impl<N: FreenectNative> FreenectContext<N> {
    /// Whether the context was set up with video (camera) support.
    pub closed spec fn video_enabled(&self) -> bool {
        self.use_video
    }

    pub closed spec fn process(&self) -> ProcessState {
        ProcessState { stop_signal: self.stop_signal, joiner: self.thread_joiner }
    }

    /// The devices opened so far, in the order they were opened.
    pub closed spec fn registry(&self) -> Seq<DeviceView> {
        self.devices@.map_values(|s: DeviceSlot| s.view())
    }

    /// The calls made into the native driver so far, oldest first, with what
    /// they returned.
    pub closed spec fn native_calls(&self) -> Seq<NativeCall> {
        self.calls@
    }

    pub open spec fn wf(&self) -> bool {
        registry_wf(self.registry())
    }

    pub open spec fn device_live(&self, d: int) -> bool {
        0 <= d < self.registry().len() && self.registry()[d].open
    }

    /// Everything but the registry is as in `other`.
    pub open spec fn same_setup(&self, other: &Self) -> bool {
        self.video_enabled() == other.video_enabled() && self.process() == other.process()
    }

    /// Initializes the context. Video and motor support are selected with
    /// `setup_video` or `setup_video_motor`. Fails exactly when the native
    /// initialization returns a negative status, which the error carries; on
    /// success the non-negative status is the first logged native call.
    pub fn init(native: N) -> (r: FreenectResult<FreenectContext<N>>)
        ensures
            match r {
                Ok(c) => {
                    &&& c.wf()
                    &&& !c.video_enabled()
                    &&& c.registry().len() == 0
                    &&& c.process() == (ProcessState { stop_signal: false, joiner: false })
                    &&& c.native_calls() == seq![NativeCall::Init(result_of(c.native_calls()[0]))]
                    &&& result_of(c.native_calls()[0]) >= 0
                },
                Err(e) => {
                    &&& e.spec_kind() == FreenectErrorKind::DriverInitError
                    &&& e.spec_native_status() matches Some(s) && s < 0
                },
            },
    {
        let mut native = native;
        let status = native.init();
        match status_result(
            status,
            FreenectErrorKind::DriverInitError,
            "Unable to create freenect context",
        ) {
            Ok(()) => {},
            Err(e) => return Err(e),
        }
        let c = FreenectContext {
            native,
            use_video: false,
            stop_signal: false,
            thread_joiner: false,
            devices: Vec::new(),
            calls: Ghost(Seq::empty().push(NativeCall::Init(status))),
        };
        proof {
            assert(c.registry() =~= Seq::<DeviceView>::empty());
            assert(c.native_calls() =~= seq![NativeCall::Init(status)]);
        }
        Ok(c)
    }

    /// Selects the camera subdevice, which enables video streams.
    pub fn setup_video(self) -> (r: FreenectContext<N>)
        ensures
            r.video_enabled(),
            r.registry() == self.registry(),
            r.process() == self.process(),
            r.native_calls() == self.native_calls().push(NativeCall::SelectSubdevices(DEVICE_CAMERA)),
    {
        let mut c = self;
        c.native.select_subdevices(DEVICE_CAMERA);
        c.calls = Ghost(c.calls@.push(NativeCall::SelectSubdevices(DEVICE_CAMERA)));
        c.use_video = true;
        c
    }

    /// Selects the camera and motor subdevices, which enables video streams.
    pub fn setup_video_motor(self) -> (r: FreenectContext<N>)
        ensures
            r.video_enabled(),
            r.registry() == self.registry(),
            r.process() == self.process(),
            r.native_calls() == self.native_calls().push(
                NativeCall::SelectSubdevices(DEVICE_CAMERA | DEVICE_MOTOR),
            ),
    {
        let mut c = self;
        let flags = DEVICE_CAMERA | DEVICE_MOTOR;
        c.native.select_subdevices(flags);
        c.calls = Ghost(c.calls@.push(NativeCall::SelectSubdevices(flags)));
        c.use_video = true;
        c
    }

    /// Initializes the context for fetching depth and video data.
    pub fn init_with_video(native: N) -> (r: FreenectResult<FreenectContext<N>>)
        ensures
            match r {
                Ok(c) => {
                    &&& c.wf()
                    &&& c.video_enabled()
                    &&& c.registry().len() == 0
                    &&& c.process() == (ProcessState { stop_signal: false, joiner: false })
                    &&& c.native_calls() == seq![
                        NativeCall::Init(result_of(c.native_calls()[0])),
                        NativeCall::SelectSubdevices(DEVICE_CAMERA),
                    ]
                    &&& result_of(c.native_calls()[0]) >= 0
                },
                Err(e) => {
                    &&& e.spec_kind() == FreenectErrorKind::DriverInitError
                    &&& e.spec_native_status() matches Some(s) && s < 0
                },
            },
    {
        match FreenectContext::init(native) {
            Ok(c) => {
                let c = c.setup_video();
                proof {
                    assert(c.native_calls() =~= seq![
                        NativeCall::Init(result_of(c.native_calls()[0])),
                        NativeCall::SelectSubdevices(DEVICE_CAMERA),
                    ]);
                }
                Ok(c)
            },
            Err(e) => Err(e),
        }
    }

    /// Initializes the context for fetching depth and video data and for
    /// controlling the motor.
    pub fn init_with_video_motor(native: N) -> (r: FreenectResult<FreenectContext<N>>)
        ensures
            match r {
                Ok(c) => {
                    &&& c.wf()
                    &&& c.video_enabled()
                    &&& c.registry().len() == 0
                    &&& c.process() == (ProcessState { stop_signal: false, joiner: false })
                    &&& c.native_calls() == seq![
                        NativeCall::Init(result_of(c.native_calls()[0])),
                        NativeCall::SelectSubdevices(DEVICE_CAMERA | DEVICE_MOTOR),
                    ]
                    &&& result_of(c.native_calls()[0]) >= 0
                },
                Err(e) => {
                    &&& e.spec_kind() == FreenectErrorKind::DriverInitError
                    &&& e.spec_native_status() matches Some(s) && s < 0
                },
            },
    {
        match FreenectContext::init(native) {
            Ok(c) => {
                let c = c.setup_video_motor();
                proof {
                    assert(c.native_calls() =~= seq![
                        NativeCall::Init(result_of(c.native_calls()[0])),
                        NativeCall::SelectSubdevices(DEVICE_CAMERA | DEVICE_MOTOR),
                    ]);
                }
                Ok(c)
            },
            Err(e) => Err(e),
        }
    }

    /// The number of attached devices, as the native count query reports it.
    pub fn num_devices(&mut self) -> (r: FreenectResult<u32>)
        ensures
            final(self).registry() == old(self).registry(),
            final(self).same_setup(old(self)),
            ({
                let q = result_of(final(self).native_calls()[old(self).native_calls().len() as int]);
                &&& final(self).native_calls() == old(self).native_calls().push(
                    NativeCall::NumDevices(q),
                )
                &&& q < 0 ==> outcome(r) == Some(FreenectErrorKind::DriverQueryError)
                &&& q >= 0 ==> (r matches Ok(n) && n == q)
            }),
    {
        let status = self.native.num_devices();
        self.calls = Ghost(self.calls@.push(NativeCall::NumDevices(status)));
        device_count_result(status)
    }

    /// Opens the device numbered `nr`, after checking it against the number of
    /// attached devices that the native count query reports.
    pub fn open_device(&mut self, nr: u32) -> (r: FreenectResult<FreenectDevice>)
        requires
            old(self).wf(),
        ensures
            final(self).wf(),
            final(self).same_setup(old(self)),
            ({
                let log0 = old(self).native_calls();
                let log = final(self).native_calls();
                let q = result_of(log[log0.len() as int]);
                let c = log[log0.len() + 1int];
                &&& q < 0 ==> {
                    &&& log == log0.push(NativeCall::NumDevices(q))
                    &&& outcome(r) == Some(FreenectErrorKind::DriverQueryError)
                    &&& final(self).registry() == old(self).registry()
                }
                &&& q >= 0 ==> {
                    &&& log == open_among_log(
                        log0.push(NativeCall::NumDevices(q)),
                        nr,
                        q as u32,
                        result_of(c),
                        handle_of(c),
                        old(self).video_enabled(),
                    )
                    &&& outcome(r) == open_among_outcome(nr, q as u32, result_of(c))
                    &&& match r {
                        Ok(dev) => opened_one(
                            old(self).registry(),
                            final(self).registry(),
                            dev.id(),
                            handle_of(c),
                        ),
                        Err(_) => final(self).registry() == old(self).registry(),
                    }
                }
            }),
    {
        let count = match self.num_devices() {
            Ok(n) => n,
            Err(e) => return Err(e),
        };
        self.open_device_among(nr, count)
    }

    /// Opens the device numbered `nr` when `count` devices are attached: a
    /// number not below `count` names no device, and the driver is not asked.
    /// Otherwise the result follows the native open call, and on success the
    /// device's callbacks are registered.
    pub fn open_device_among(&mut self, nr: u32, count: u32) -> (r: FreenectResult<FreenectDevice>)
        requires
            old(self).wf(),
        ensures
            final(self).wf(),
            final(self).same_setup(old(self)),
            ({
                let log0 = old(self).native_calls();
                let c = final(self).native_calls()[log0.len() as int];
                &&& final(self).native_calls() == open_among_log(
                    log0,
                    nr,
                    count,
                    result_of(c),
                    handle_of(c),
                    old(self).video_enabled(),
                )
                &&& outcome(r) == open_among_outcome(nr, count, result_of(c))
                &&& match r {
                    Ok(dev) => opened_one(
                        old(self).registry(),
                        final(self).registry(),
                        dev.id(),
                        handle_of(c),
                    ),
                    Err(_) => final(self).registry() == old(self).registry(),
                }
            }),
    {
        match device_index_check(nr, count) {
            Ok(()) => {},
            Err(e) => return Err(e),
        }
        let (status, handle) = self.native.open_device(nr);
        self.calls = Ghost(self.calls@.push(NativeCall::OpenDevice(nr, status, handle)));
        if status < 0 {
            return Err(FreenectError::from_status(FreenectErrorKind::DriverOpenError, "Unable to open device", status));
        }
        let index = self.devices.len();
        self.native.set_depth_callback(handle);
        self.calls = Ghost(self.calls@.push(NativeCall::SetDepthCallback(handle)));
        if self.use_video {
            self.native.set_video_callback(handle);
            self.calls = Ghost(self.calls@.push(NativeCall::SetVideoCallback(handle)));
        }
        self.devices.push(DeviceSlot { open: true, handle, depth: None, video: None });
        proof {
            let log0 = old(self).native_calls();
            if self.use_video {
                assert(self.calls@ =~= log0 + seq![
                    NativeCall::OpenDevice(nr, status, handle),
                    NativeCall::SetDepthCallback(handle),
                    NativeCall::SetVideoCallback(handle),
                ]);
            } else {
                assert(self.calls@ =~= log0 + seq![
                    NativeCall::OpenDevice(nr, status, handle),
                    NativeCall::SetDepthCallback(handle),
                ]);
            }
            assert(self.registry()[index as int] == self.devices@[index as int].view());
            assert(self.registry().drop_last() =~= old(self).registry());
            assert forall|d: int| 0 <= d < self.registry().len() implies (
            #[trigger] self.registry()[d]).wf() by {
                if d < index {
                    assert(self.registry()[d] == old(self).registry()[d]);
                }
            }
        }
        Ok(FreenectDevice { index })
    }

    /// The native handle of the device numbered `d`, if it is open.
    fn live_handle(&self, d: usize) -> (h: Option<u32>)
        ensures
            h matches Some(x) ==> self.device_live(d as int) && x == self.registry()[d as int].handle,
            h is None ==> !self.device_live(d as int),
    {
        if d < self.devices.len() && self.devices[d].open {
            Some(self.devices[d].handle)
        } else {
            None
        }
    }

    /// The depth callback: hands a frame that the driver completed on the
    /// device whose user data is `user` to that device's live depth stream.
    /// The frame is dropped when the stream's buffer is full, and nothing
    /// happens when the device has no live depth stream. The buffer is owned,
    /// so the consumer never reads memory that the driver writes the next
    /// frame into. Returns whether the frame was kept.
    pub fn deliver_depth(&mut self, user: usize, data: Vec<u16>, timestamp: u32) -> (kept: bool)
        requires
            old(self).wf(),
        ensures
            final(self).wf(),
            final(self).same_setup(old(self)),
            final(self).registry() == depth_delivered(
                old(self).registry(),
                user as int,
                (Frame { data: data, timestamp: timestamp }),
            ),
            same_slots(old(self).registry(), final(self).registry()),
            final(self).native_calls() == old(self).native_calls(),
            kept == (device_at(old(self).registry(), user as int).depth matches Some(q) && q.len()
                < STREAM_CAPACITY),
    {
        if user >= self.devices.len() {
            return false;
        }
        let ghost before = self.devices@[user as int];
        let ghost f = Frame { data: data, timestamp: timestamp };
        match &mut self.devices[user].depth {
            Some(q) => {
                proof {
                    assert(old(self).registry()[user as int].wf());
                }
                let kept = q.offer(Frame { data, timestamp });
                proof {
                    let v = old(self).registry()[user as int].with_depth(
                        Some(offer_spec(before.depth->0@, f)),
                    );
                    assert(self.registry() =~= old(self).registry().update(user as int, v));
                    lemma_update_wf(old(self).registry(), user as int, v);
                }
                kept
            },
            None => {
                proof {
                    assert(self.registry() =~= old(self).registry());
                }
                false
            },
        }
    }

    /// The video callback: as `deliver_depth`, for the device's live video
    /// stream.
    pub fn deliver_video(&mut self, user: usize, data: Vec<u8>, timestamp: u32) -> (kept: bool)
        requires
            old(self).wf(),
        ensures
            final(self).wf(),
            final(self).same_setup(old(self)),
            final(self).registry() == video_delivered(
                old(self).registry(),
                user as int,
                (Frame { data: data, timestamp: timestamp }),
            ),
            same_slots(old(self).registry(), final(self).registry()),
            final(self).native_calls() == old(self).native_calls(),
            kept == (device_at(old(self).registry(), user as int).video matches Some(q) && q.len()
                < STREAM_CAPACITY),
    {
        if user >= self.devices.len() {
            return false;
        }
        let ghost before = self.devices@[user as int];
        let ghost f = Frame { data: data, timestamp: timestamp };
        match &mut self.devices[user].video {
            Some(q) => {
                proof {
                    assert(old(self).registry()[user as int].wf());
                }
                let kept = q.offer(Frame { data, timestamp });
                proof {
                    let v = old(self).registry()[user as int].with_video(
                        Some(offer_spec(before.video->0@, f)),
                    );
                    assert(self.registry() =~= old(self).registry().update(user as int, v));
                    lemma_update_wf(old(self).registry(), user as int, v);
                }
                kept
            },
            None => {
                proof {
                    assert(self.registry() =~= old(self).registry());
                }
                false
            },
        }
    }

    /// Passes each frame of `frames`, in order, to the callback of its kind.
    pub fn dispatch_frames(&mut self, frames: VecDeque<NativeFrame>)
        requires
            old(self).wf(),
        ensures
            final(self).wf(),
            final(self).same_setup(old(self)),
            final(self).registry() == dispatched(old(self).registry(), frames@),
            same_slots(old(self).registry(), final(self).registry()),
            final(self).native_calls() == old(self).native_calls(),
    {
        let ghost fs = frames@;
        let mut frames = frames;
        proof {
            assert(fs.subrange(0, 0) =~= Seq::<NativeFrame>::empty());
            assert(frames@ =~= fs.subrange(0, fs.len() as int));
        }
        while frames.len() > 0
            invariant
                self.wf(),
                self.same_setup(old(self)),
                same_slots(old(self).registry(), self.registry()),
                self.native_calls() == old(self).native_calls(),
                frames@.len() <= fs.len(),
                frames@ == fs.subrange(fs.len() - frames@.len(), fs.len() as int),
                self.registry() == dispatched(
                    old(self).registry(),
                    fs.subrange(0, fs.len() - frames@.len()),
                ),
            decreases frames@.len(),
        {
            let ghost k = fs.len() - frames@.len();
            let ghost mid = self.registry();
            let item = frames.pop_front();
            let ghost x = item->0;
            proof {
                assert(x == fs[k]);
                assert(frames@ =~= fs.subrange(k + 1, fs.len() as int));
                let pre = fs.subrange(0, k + 1);
                assert(pre.drop_last() =~= fs.subrange(0, k));
                assert(pre.last() == x);
            }
            match item {
                Some(NativeFrame::Depth { user, data, timestamp }) => {
                    self.deliver_depth(user, data, timestamp);
                },
                Some(NativeFrame::Video { user, data, timestamp }) => {
                    self.deliver_video(user, data, timestamp);
                },
                None => {},
            }
            proof {
                lemma_same_slots_trans(old(self).registry(), mid, self.registry());
            }
        }
        proof {
            assert(fs.subrange(0, fs.len() as int) =~= fs);
        }
    }

    /// Runs the native event pump once and passes each frame it completed to
    /// the callback of its kind, in the order the driver produced them.
    /// Returns the pump's status.
    pub fn process_events(&mut self) -> (status: i32)
        requires
            old(self).wf(),
        ensures
            final(self).wf(),
            final(self).same_setup(old(self)),
            same_slots(old(self).registry(), final(self).registry()),
            ({
                let c = final(self).native_calls().last();
                &&& final(self).native_calls() == old(self).native_calls().push(c)
                &&& c == NativeCall::ProcessEvents(status, frames_of(c))
                &&& final(self).registry() == dispatched(old(self).registry(), frames_of(c))
            }),
    {
        let (status, frames) = self.native.process_events();
        self.calls = Ghost(self.calls@.push(NativeCall::ProcessEvents(status, frames@)));
        self.dispatch_frames(frames);
        status
    }

    /// Closes a device: its live streams are torn down (native streaming
    /// stopped, slots emptied) before the native device is closed.
    pub fn close_device(&mut self, dev: FreenectDevice)
        requires
            old(self).wf(),
        ensures
            final(self).wf(),
            final(self).same_setup(old(self)),
            final(self).registry() == put(
                old(self).registry(),
                dev.id(),
                device_close_spec(device_at(old(self).registry(), dev.id())),
            ),
            final(self).native_calls() == close_device_log(
                old(self).native_calls(),
                device_at(old(self).registry(), dev.id()),
            ),
    {
        let d = dev.index;
        if d >= self.devices.len() || !self.devices[d].open {
            proof {
                if d < old(self).registry().len() {
                    let v = old(self).registry()[d as int];
                    assert(v.wf());
                    assert(device_close_spec(v) == v);
                    assert(old(self).registry().update(d as int, v) =~= old(self).registry());
                }
            }
            return;
        }
        let handle = self.devices[d].handle;
        if self.devices[d].depth.is_some() {
            self.native.stop_depth(handle);
            self.calls = Ghost(self.calls@.push(NativeCall::StopDepth(handle)));
            self.devices[d].depth = None;
        }
        if self.devices[d].video.is_some() {
            self.native.stop_video(handle);
            self.calls = Ghost(self.calls@.push(NativeCall::StopVideo(handle)));
            self.devices[d].video = None;
        }
        self.native.close_device(handle);
        self.calls = Ghost(self.calls@.push(NativeCall::CloseDevice(handle)));
        self.devices[d].open = false;
        proof {
            let v = device_close_spec(old(self).registry()[d as int]);
            assert(self.registry() =~= old(self).registry().update(d as int, v));
            lemma_update_wf(old(self).registry(), d as int, v);
        }
    }

    /// Closes every open device, in the order they were opened, each with its
    /// streams torn down first.
    pub fn close_all_devices(&mut self)
        requires
            old(self).wf(),
        ensures
            final(self).wf(),
            final(self).same_setup(old(self)),
            final(self).registry() == old(self).registry().map_values(
                |v: DeviceView| device_close_spec(v),
            ),
            final(self).native_calls() == close_all_log(
                old(self).native_calls(),
                old(self).registry(),
            ),
    {
        let n = self.devices.len();
        let ghost reg0 = self.registry();
        let ghost log0 = self.native_calls();
        assert(reg0.len() == n);
        let mut i: usize = 0;
        proof {
            assert(reg0.subrange(0, 0) =~= Seq::<DeviceView>::empty());
        }
        while i < n
            invariant
                self.wf(),
                self.same_setup(old(self)),
                reg0 == old(self).registry(),
                log0 == old(self).native_calls(),
                reg0.len() == n,
                i <= n,
                self.registry().len() == n,
                forall|d: int| 0 <= d < i ==> #[trigger] self.registry()[d] == device_close_spec(reg0[d]),
                forall|d: int| i <= d < n ==> #[trigger] self.registry()[d] == reg0[d],
                self.native_calls() == close_all_log(log0, reg0.subrange(0, i as int)),
            decreases n - i,
        {
            let ghost before = self.registry();
            self.close_device(FreenectDevice { index: i });
            proof {
                let pre = reg0.subrange(0, i + 1);
                assert(pre.drop_last() =~= reg0.subrange(0, i as int));
                assert(pre.last() == reg0[i as int]);
                assert forall|d: int| 0 <= d < i + 1 implies #[trigger] self.registry()[d]
                    == device_close_spec(reg0[d]) by {
                    if d < i {
                        assert(self.registry()[d] == before[d]);
                    }
                }
                assert forall|d: int| i + 1 <= d < n implies #[trigger] self.registry()[d]
                    == reg0[d] by {
                    assert(self.registry()[d] == before[d]);
                }
            }
            i = i + 1;
        }
        proof {
            assert(reg0.subrange(0, n as int) =~= reg0);
            assert(self.registry() =~= reg0.map_values(|v: DeviceView| device_close_spec(v)));
        }
    }

    /// Shuts the context down once no processing thread is registered: every
    /// open device is closed, its streams first, then the native context is
    /// released. Returns the native driver and the calls made into it.
    pub fn shutdown(self) -> (r: (N, Ghost<Seq<NativeCall>>))
        requires
            self.wf(),
            !self.process().joiner,
        ensures
            r.1@ == close_all_log(self.native_calls(), self.registry()).push(NativeCall::Shutdown),
    {
        let mut c = self;
        c.close_all_devices();
        c.native.shutdown();
        c.calls = Ghost(c.calls@.push(NativeCall::Shutdown));
        (c.native, c.calls)
    }

    /// Whether a background processing thread is registered, which must be
    /// stopped and joined before the context is shut down.
    pub fn has_process_thread(&self) -> (b: bool)
        ensures
            b == self.process().joiner,
    {
        self.thread_joiner
    }

    /// Registers a new background processing thread. `probe_accepted` says
    /// whether the stop signal currently held, if any, accepted a probe, that
    /// is whether its thread is still running. On success the caller spawns
    /// the thread and keeps its stop signal and join handle.
    pub fn spawn_process_thread(&mut self, probe_accepted: bool) -> (r: FreenectResult<()>)
        ensures
            (outcome(r), final(self).process()) == spawn_spec(old(self).process(), probe_accepted),
            final(self).registry() == old(self).registry(),
            final(self).video_enabled() == old(self).video_enabled(),
            final(self).native_calls() == old(self).native_calls(),
    {
        if self.stop_signal && probe_accepted {
            return Err(
                FreenectError::new(
                    FreenectErrorKind::AlreadyRunning,
                    "Cannot spawn process thread, thread is already running",
                ),
            );
        }
        self.stop_signal = true;
        self.thread_joiner = true;
        Ok(())
    }

    /// Deregisters the background processing thread: its stop signal is to be
    /// dropped, and the result says whether there is a thread to join.
    pub fn stop_process_thread(&mut self) -> (join: bool)
        ensures
            (join, final(self).process()) == stop_spec(old(self).process()),
            final(self).registry() == old(self).registry(),
            final(self).video_enabled() == old(self).video_enabled(),
            final(self).native_calls() == old(self).native_calls(),
    {
        let join = self.thread_joiner;
        self.stop_signal = false;
        self.thread_joiner = false;
        join
    }
}

/// `b` is `a` with one more device, open, numbered `id`, with native handle
/// `h` and empty slots.
pub open spec fn opened_one(a: Seq<DeviceView>, b: Seq<DeviceView>, id: int, h: u32) -> bool {
    &&& id == a.len()
    &&& b.len() == a.len() + 1
    &&& b.drop_last() == a
    &&& b[id].open
    &&& b[id].handle == h
    &&& b[id].depth is None
    &&& b[id].video is None
}

/// The calls that opening device `nr` among `count` devices makes, given the
/// status `s` and handle `h` the native open returns: none when `nr` names no
/// device; else the open call and, when it succeeded, the registration of the
/// depth callback and, with video support, of the video callback.
pub open spec fn open_among_log(
    log: Seq<NativeCall>,
    nr: u32,
    count: u32,
    s: i32,
    h: u32,
    video: bool,
) -> Seq<NativeCall> {
    if nr >= count {
        log
    } else if s < 0 {
        log.push(NativeCall::OpenDevice(nr, s, h))
    } else if video {
        log + seq![
            NativeCall::OpenDevice(nr, s, h),
            NativeCall::SetDepthCallback(h),
            NativeCall::SetVideoCallback(h),
        ]
    } else {
        log + seq![NativeCall::OpenDevice(nr, s, h), NativeCall::SetDepthCallback(h)]
    }
}

/// The error, if any, of opening device `nr` among `count` devices when the
/// native open returns status `s`.
pub open spec fn open_among_outcome(nr: u32, count: u32, s: i32) -> Option<FreenectErrorKind> {
    if nr >= count {
        Some(FreenectErrorKind::DeviceNotFound)
    } else if s < 0 {
        Some(FreenectErrorKind::DriverOpenError)
    } else {
        None
    }
}

/// The result of the native device count query that returned `status`.
pub fn device_count_result(status: i32) -> (r: FreenectResult<u32>)
    ensures
        status < 0 ==> outcome(r) == Some(FreenectErrorKind::DriverQueryError),
        status >= 0 ==> (r matches Ok(n) && n == status),
{
    if status < 0 {
        Err(
            FreenectError::from_status(
                FreenectErrorKind::DriverQueryError,
                "Unable to retrieve number of freenect devices",
                status,
            ),
        )
    } else {
        Ok(status as u32)
    }
}

/// Checks a device number against the number of attached devices.
pub fn device_index_check(nr: u32, count: u32) -> (r: FreenectResult<()>)
    ensures
        nr < count <==> r is Ok,
        nr >= count ==> outcome(r) == Some(FreenectErrorKind::DeviceNotFound),
{
    if nr >= count {
        Err(FreenectError::new(FreenectErrorKind::DeviceNotFound, "Device not found"))
    } else {
        Ok(())
    }
}

/// The device numbered `d` in `reg`; a number outside it names a closed device.
pub open spec fn device_at(reg: Seq<DeviceView>, d: int) -> DeviceView {
    if 0 <= d < reg.len() {
        reg[d]
    } else {
        DeviceView { open: false, handle: 0, depth: None, video: None }
    }
}

/// `reg` with the device numbered `d`, if there is one, replaced by `v`.
pub open spec fn put(reg: Seq<DeviceView>, d: int, v: DeviceView) -> Seq<DeviceView> {
    if 0 <= d < reg.len() {
        reg.update(d, v)
    } else {
        reg
    }
}

/// Opening a depth stream on `v` when the native start call succeeds or not
/// (`started`): the error, if any, and the device afterwards. A device holds at
/// most one live depth stream.
pub open spec fn depth_open_spec(v: DeviceView, started: bool) -> (
    Option<FreenectErrorKind>,
    DeviceView,
) {
    if !v.open {
        (Some(FreenectErrorKind::DeviceNotFound), v)
    } else if v.depth is Some {
        (Some(FreenectErrorKind::StreamAlreadyOpen), v)
    } else if !started {
        (Some(FreenectErrorKind::StreamStartError), v)
    } else {
        (None, v.with_depth(Some(Seq::empty())))
    }
}

/// Opening a video stream on `v` in a context with or without video support:
/// as for depth, and refused without video support.
pub open spec fn video_open_spec(v: DeviceView, video_enabled: bool, started: bool) -> (
    Option<FreenectErrorKind>,
    DeviceView,
) {
    if !v.open {
        (Some(FreenectErrorKind::DeviceNotFound), v)
    } else if !video_enabled {
        (Some(FreenectErrorKind::VideoUnsupported), v)
    } else if v.video is Some {
        (Some(FreenectErrorKind::StreamAlreadyOpen), v)
    } else if !started {
        (Some(FreenectErrorKind::StreamStartError), v)
    } else {
        (None, v.with_video(Some(Seq::empty())))
    }
}

/// The calls that opening a depth stream on device `v`, numbered `id`, makes
/// when the native start call returns `s`: none on a device that is not open;
/// the installation of the user data; then the start call, unless a depth
/// stream is live.
pub open spec fn depth_open_log(log: Seq<NativeCall>, v: DeviceView, id: int, s: i32) -> Seq<
    NativeCall,
> {
    if !v.open {
        log
    } else if v.depth is Some {
        log.push(NativeCall::SetUser(v.handle, id as usize))
    } else {
        log + seq![NativeCall::SetUser(v.handle, id as usize), NativeCall::StartDepth(v.handle, s)]
    }
}

/// The calls that opening a video stream makes: as for depth, with no start
/// call either without video support.
pub open spec fn video_open_log(
    log: Seq<NativeCall>,
    v: DeviceView,
    video_enabled: bool,
    id: int,
    s: i32,
) -> Seq<NativeCall> {
    if !v.open {
        log
    } else if !video_enabled || v.video is Some {
        log.push(NativeCall::SetUser(v.handle, id as usize))
    } else {
        log + seq![NativeCall::SetUser(v.handle, id as usize), NativeCall::StartVideo(v.handle, s)]
    }
}

/// Closing the device `v`: its live streams are torn down, then it is closed.
pub open spec fn device_close_spec(v: DeviceView) -> DeviceView {
    DeviceView { open: false, handle: v.handle, depth: None, video: None }
}

/// `reg` after the depth callback delivered `f` with user data `d`: the frame
/// is offered to the live depth stream of that device, and nothing happens
/// when there is none.
pub open spec fn depth_delivered(reg: Seq<DeviceView>, d: int, f: DepthFrame) -> Seq<
    DeviceView,
> {
    match device_at(reg, d).depth {
        Some(q) => put(reg, d, reg[d].with_depth(Some(offer_spec(q, f)))),
        None => reg,
    }
}

/// `reg` after the video callback delivered `f` with user data `d`.
pub open spec fn video_delivered(reg: Seq<DeviceView>, d: int, f: VideoFrame) -> Seq<
    DeviceView,
> {
    match device_at(reg, d).video {
        Some(q) => put(reg, d, reg[d].with_video(Some(offer_spec(q, f)))),
        None => reg,
    }
}

/// `reg` after the callback of its kind handled the native frame `f`.
pub open spec fn dispatch_one(reg: Seq<DeviceView>, f: NativeFrame) -> Seq<DeviceView> {
    match f {
        NativeFrame::Depth { user, data, timestamp } => depth_delivered(
            reg,
            user as int,
            Frame { data: data, timestamp: timestamp },
        ),
        NativeFrame::Video { user, data, timestamp } => video_delivered(
            reg,
            user as int,
            Frame { data: data, timestamp: timestamp },
        ),
    }
}

/// `reg` after the frames `fs` were handed to the callbacks, in order.
pub open spec fn dispatched(reg: Seq<DeviceView>, fs: Seq<NativeFrame>) -> Seq<DeviceView>
    decreases fs.len(),
{
    if fs.len() == 0 {
        reg
    } else {
        dispatch_one(dispatched(reg, fs.drop_last()), fs.last())
    }
}

/// The calls that closing the device `v` makes: the stop call of each live
/// stream, then the close call; none for a device that is not open.
pub open spec fn close_device_log(log: Seq<NativeCall>, v: DeviceView) -> Seq<NativeCall> {
    if !v.open {
        log
    } else {
        let l1 = if v.depth is Some {
            log.push(NativeCall::StopDepth(v.handle))
        } else {
            log
        };
        let l2 = if v.video is Some {
            l1.push(NativeCall::StopVideo(v.handle))
        } else {
            l1
        };
        l2.push(NativeCall::CloseDevice(v.handle))
    }
}

/// The calls that closing every device of `reg`, in order, makes.
pub open spec fn close_all_log(log: Seq<NativeCall>, reg: Seq<DeviceView>) -> Seq<NativeCall>
    decreases reg.len(),
{
    if reg.len() == 0 {
        log
    } else {
        close_device_log(close_all_log(log, reg.drop_last()), reg.last())
    }
}

/// What receiving on the depth stream of device `d` of `reg` returns, and the
/// registry it leaves: the oldest buffered frame, if any.
pub open spec fn depth_receive_spec(reg: Seq<DeviceView>, d: int) -> (Option<DepthFrame>, Seq<DeviceView>) {
    match device_at(reg, d).depth {
        Some(q) => (take_spec(q).0, reg.update(d, reg[d].with_depth(Some(take_spec(q).1)))),
        None => (None, reg),
    }
}

/// The registry, and the frames the consumer of the depth stream of device `d`
/// obtained, after the depth callback ran with that device's user data
/// (`Deliver`) and the consumer received (`Receive`), in the order of `ev`.
pub open spec fn depth_stream_replay(reg: Seq<DeviceView>, d: int, ev: Seq<StreamEvent<u16>>) -> (
    Seq<DeviceView>,
    Seq<DepthFrame>,
)
    decreases ev.len(),
{
    if ev.len() == 0 {
        (reg, Seq::empty())
    } else {
        let (r0, seen) = depth_stream_replay(reg, d, ev.drop_last());
        match ev.last() {
            StreamEvent::Deliver(f) => (depth_delivered(r0, d, f), seen),
            StreamEvent::Receive => match depth_receive_spec(r0, d).0 {
                Some(f) => (depth_receive_spec(r0, d).1, seen.push(f)),
                None => (r0, seen),
            },
        }
    }
}

/// The depth stream of a device behaves as its buffer does: the callback and
/// the consumer act on that device's slot alone, as `offer` and `take`.
proof fn lemma_depth_stream_follows_buffer(reg: Seq<DeviceView>, d: int, ev: Seq<StreamEvent<u16>>)
    requires
        0 <= d < reg.len(),
        reg[d].depth is Some,
    ensures
        depth_stream_replay(reg, d, ev).0.len() == reg.len(),
        depth_stream_replay(reg, d, ev).0[d].depth == Some(replay(reg[d].depth->0, ev).0),
        depth_stream_replay(reg, d, ev).1 == replay(reg[d].depth->0, ev).1,
    decreases ev.len(),
{
    if ev.len() > 0 {
        lemma_depth_stream_follows_buffer(reg, d, ev.drop_last());
    }
}

/// Frames of a depth stream reach its consumer in the order the driver's
/// callbacks delivered them: when the callbacks for a device whose depth
/// stream was just opened deliver strictly increasing timestamps, the
/// consumer receives strictly increasing timestamps, so none twice.
pub proof fn lemma_depth_callbacks_in_order(reg: Seq<DeviceView>, d: int, ev: Seq<StreamEvent<u16>>)
    requires
        0 <= d < reg.len(),
        reg[d].depth == Some(Seq::<DepthFrame>::empty()),
        strictly_increasing(timestamps(delivered(ev))),
    ensures
        strictly_increasing(timestamps(depth_stream_replay(reg, d, ev).1)),
{
    lemma_depth_stream_follows_buffer(reg, d, ev);
    lemma_delivery_order(ev);
}

/// A consumer of a depth stream that receives after each callback gets every
/// frame the callbacks delivered, in order, and leaves the slot empty.
pub proof fn lemma_depth_consumer_keeping_up(reg: Seq<DeviceView>, d: int, fs: Seq<DepthFrame>)
    requires
        0 <= d < reg.len(),
        reg[d].depth == Some(Seq::<DepthFrame>::empty()),
    ensures
        depth_stream_replay(reg, d, kept_up(fs)).1 == fs,
        depth_stream_replay(reg, d, kept_up(fs)).0[d].depth == Some(Seq::<DepthFrame>::empty()),
{
    lemma_depth_stream_follows_buffer(reg, d, kept_up(fs));
    lemma_keeping_up_sees_all(fs);
}

/// What receiving on the video stream of device `d` of `reg` returns, and the
/// registry it leaves: the oldest buffered frame, if any.
pub open spec fn video_receive_spec(reg: Seq<DeviceView>, d: int) -> (Option<VideoFrame>, Seq<DeviceView>) {
    match device_at(reg, d).video {
        Some(q) => (take_spec(q).0, reg.update(d, reg[d].with_video(Some(take_spec(q).1)))),
        None => (None, reg),
    }
}

/// The registry, and the frames the consumer of the video stream of device `d`
/// obtained, after the video callback ran with that device's user data
/// (`Deliver`) and the consumer received (`Receive`), in the order of `ev`.
pub open spec fn video_stream_replay(reg: Seq<DeviceView>, d: int, ev: Seq<StreamEvent<u8>>) -> (
    Seq<DeviceView>,
    Seq<VideoFrame>,
)
    decreases ev.len(),
{
    if ev.len() == 0 {
        (reg, Seq::empty())
    } else {
        let (r0, seen) = video_stream_replay(reg, d, ev.drop_last());
        match ev.last() {
            StreamEvent::Deliver(f) => (video_delivered(r0, d, f), seen),
            StreamEvent::Receive => match video_receive_spec(r0, d).0 {
                Some(f) => (video_receive_spec(r0, d).1, seen.push(f)),
                None => (r0, seen),
            },
        }
    }
}

/// The video stream of a device behaves as its buffer does: the callback and
/// the consumer act on that device's slot alone, as `offer` and `take`.
proof fn lemma_video_stream_follows_buffer(reg: Seq<DeviceView>, d: int, ev: Seq<StreamEvent<u8>>)
    requires
        0 <= d < reg.len(),
        reg[d].video is Some,
    ensures
        video_stream_replay(reg, d, ev).0.len() == reg.len(),
        video_stream_replay(reg, d, ev).0[d].video == Some(replay(reg[d].video->0, ev).0),
        video_stream_replay(reg, d, ev).1 == replay(reg[d].video->0, ev).1,
    decreases ev.len(),
{
    if ev.len() > 0 {
        lemma_video_stream_follows_buffer(reg, d, ev.drop_last());
    }
}

/// Frames of a video stream reach its consumer in the order the driver's
/// callbacks delivered them: when the callbacks for a device whose video
/// stream was just opened deliver strictly increasing timestamps, the
/// consumer receives strictly increasing timestamps, so none twice.
pub proof fn lemma_video_callbacks_in_order(reg: Seq<DeviceView>, d: int, ev: Seq<StreamEvent<u8>>)
    requires
        0 <= d < reg.len(),
        reg[d].video == Some(Seq::<VideoFrame>::empty()),
        strictly_increasing(timestamps(delivered(ev))),
    ensures
        strictly_increasing(timestamps(video_stream_replay(reg, d, ev).1)),
{
    lemma_video_stream_follows_buffer(reg, d, ev);
    lemma_delivery_order(ev);
}

/// A consumer of a video stream that receives after each callback gets every
/// frame the callbacks delivered, in order, and leaves the slot empty.
pub proof fn lemma_video_consumer_keeping_up(reg: Seq<DeviceView>, d: int, fs: Seq<VideoFrame>)
    requires
        0 <= d < reg.len(),
        reg[d].video == Some(Seq::<VideoFrame>::empty()),
    ensures
        video_stream_replay(reg, d, kept_up(fs)).1 == fs,
        video_stream_replay(reg, d, kept_up(fs)).0[d].video == Some(Seq::<VideoFrame>::empty()),
{
    lemma_video_stream_follows_buffer(reg, d, kept_up(fs));
    lemma_keeping_up_sees_all(fs);
}

/// Whether video streams can be refused for want of video support: exactly
/// when the context was set up without it. A depth stream never is.
pub proof fn lemma_video_unsupported_iff(v: DeviceView, video_enabled: bool, started: bool)
    requires
        v.open,
    ensures
        video_open_spec(v, video_enabled, started).0 == Some(FreenectErrorKind::VideoUnsupported)
            <==> !video_enabled,
        depth_open_spec(v, started).0 != Some(FreenectErrorKind::VideoUnsupported),
{
}

/// While a depth stream is live a second one is refused; once it is torn down,
/// opening succeeds again whenever the native start call does.
pub proof fn lemma_depth_stream_exclusive(v: DeviceView, first: bool, second: bool, third: bool)
    requires
        depth_open_spec(v, first).0 is None,
    ensures
        depth_open_spec(depth_open_spec(v, first).1, second).0 == Some(
            FreenectErrorKind::StreamAlreadyOpen,
        ),
        depth_open_spec(depth_open_spec(v, first).1.with_depth(None), third).0 == if third {
            None
        } else {
            Some(FreenectErrorKind::StreamStartError)
        },
{
}

/// While a video stream is live a second one is refused; once it is torn down,
/// opening succeeds again whenever the native start call does.
pub proof fn lemma_video_stream_exclusive(
    v: DeviceView,
    video_enabled: bool,
    first: bool,
    second: bool,
    third: bool,
)
    requires
        video_open_spec(v, video_enabled, first).0 is None,
    ensures
        video_open_spec(video_open_spec(v, video_enabled, first).1, video_enabled, second).0
            == Some(FreenectErrorKind::StreamAlreadyOpen),
        video_open_spec(
            video_open_spec(v, video_enabled, first).1.with_video(None),
            video_enabled,
            third,
        ).0 == if third {
            None
        } else {
            Some(FreenectErrorKind::StreamStartError)
        },
{
}

/// A live depth stream of a device, named by the device's place in the
/// registry. Closing it stops native streaming and empties the device's depth
/// slot, so that a new depth stream can be opened.
pub struct FreenectDepthStream {
    device: usize,
}

/// A live video stream of a device; see `FreenectDepthStream`.
pub struct FreenectVideoStream {
    device: usize,
}

impl FreenectDepthStream {
    /// The place in the registry of the device the stream belongs to.
    pub closed spec fn id(&self) -> int {
        self.device as int
    }
}

impl FreenectVideoStream {
    /// The place in the registry of the device the stream belongs to.
    pub closed spec fn id(&self) -> int {
        self.device as int
    }
}

impl FreenectDevice {
    /// Returns a stream for fetching depth data. The device's registry place
    /// is installed as the native user data first, so that the callback bridge
    /// can find the device's depth slot; the native start call is made only
    /// when no depth stream is live, and the stream opens exactly when it
    /// succeeds.
    pub fn depth_stream<N: FreenectNative>(&self, ctx: &mut FreenectContext<N>) -> (r: FreenectResult<
        FreenectDepthStream,
    >)
        requires
            old(ctx).wf(),
        ensures
            final(ctx).wf(),
            final(ctx).same_setup(old(ctx)),
            ({
                let log0 = old(ctx).native_calls();
                let s = result_of(final(ctx).native_calls()[log0.len() + 1int]);
                let dv = device_at(old(ctx).registry(), self.id());
                let (k, v) = depth_open_spec(dv, s >= 0);
                &&& outcome(r) == k
                &&& final(ctx).registry() == put(old(ctx).registry(), self.id(), v)
                &&& final(ctx).native_calls() == depth_open_log(log0, dv, self.id(), s)
            }),
            r matches Ok(st) ==> st.id() == self.id(),
    {
        let d = self.index;
        if d >= ctx.devices.len() || !ctx.devices[d].open {
            return Err(FreenectError::new(FreenectErrorKind::DeviceNotFound, "Device not found"));
        }
        let handle = ctx.devices[d].handle;
        ctx.native.set_user(handle, d);
        ctx.calls = Ghost(ctx.calls@.push(NativeCall::SetUser(handle, d)));
        if ctx.devices[d].depth.is_some() {
            return Err(
                FreenectError::new(
                    FreenectErrorKind::StreamAlreadyOpen,
                    "Depth stream already created",
                ),
            );
        }
        let status = ctx.native.start_depth(handle);
        ctx.calls = Ghost(ctx.calls@.push(NativeCall::StartDepth(handle, status)));
        proof {
            assert(ctx.calls@ =~= old(ctx).native_calls() + seq![
                NativeCall::SetUser(handle, d),
                NativeCall::StartDepth(handle, status),
            ]);
        }
        if status < 0 {
            return Err(
                FreenectError::from_status(FreenectErrorKind::StreamStartError, "Unable to start depth", status),
            );
        }
        ctx.devices[d].depth = Some(FrameQueue::new());
        proof {
            assert(ctx.registry() =~= old(ctx).registry().update(
                d as int,
                old(ctx).registry()[d as int].with_depth(Some(Seq::empty())),
            ));
        }
        Ok(FreenectDepthStream { device: d })
    }

    /// Returns a stream for fetching video data; refused, without a native
    /// start call, when the context was set up without video support or a
    /// video stream is live. Otherwise the stream opens exactly when the
    /// native start call succeeds.
    pub fn video_stream<N: FreenectNative>(&self, ctx: &mut FreenectContext<N>) -> (r: FreenectResult<
        FreenectVideoStream,
    >)
        requires
            old(ctx).wf(),
        ensures
            final(ctx).wf(),
            final(ctx).same_setup(old(ctx)),
            ({
                let log0 = old(ctx).native_calls();
                let s = result_of(final(ctx).native_calls()[log0.len() + 1int]);
                let dv = device_at(old(ctx).registry(), self.id());
                let (k, v) = video_open_spec(dv, old(ctx).video_enabled(), s >= 0);
                &&& outcome(r) == k
                &&& final(ctx).registry() == put(old(ctx).registry(), self.id(), v)
                &&& final(ctx).native_calls() == video_open_log(
                    log0,
                    dv,
                    old(ctx).video_enabled(),
                    self.id(),
                    s,
                )
            }),
            old(ctx).device_live(self.id()) ==> (outcome(r) == Some(
                FreenectErrorKind::VideoUnsupported,
            ) <==> !old(ctx).video_enabled()),
            r matches Ok(st) ==> st.id() == self.id(),
    {
        let d = self.index;
        if d >= ctx.devices.len() || !ctx.devices[d].open {
            return Err(FreenectError::new(FreenectErrorKind::DeviceNotFound, "Device not found"));
        }
        let handle = ctx.devices[d].handle;
        ctx.native.set_user(handle, d);
        ctx.calls = Ghost(ctx.calls@.push(NativeCall::SetUser(handle, d)));
        if !ctx.use_video {
            return Err(
                FreenectError::new(
                    FreenectErrorKind::VideoUnsupported,
                    "Cannot build video stream, context created without support for it",
                ),
            );
        }
        if ctx.devices[d].video.is_some() {
            return Err(
                FreenectError::new(
                    FreenectErrorKind::StreamAlreadyOpen,
                    "Video stream already created",
                ),
            );
        }
        let status = ctx.native.start_video(handle);
        ctx.calls = Ghost(ctx.calls@.push(NativeCall::StartVideo(handle, status)));
        proof {
            assert(ctx.calls@ =~= old(ctx).native_calls() + seq![
                NativeCall::SetUser(handle, d),
                NativeCall::StartVideo(handle, status),
            ]);
        }
        if status < 0 {
            return Err(
                FreenectError::from_status(FreenectErrorKind::StreamStartError, "Unable to start video", status),
            );
        }
        ctx.devices[d].video = Some(FrameQueue::new());
        proof {
            assert(ctx.registry() =~= old(ctx).registry().update(
                d as int,
                old(ctx).registry()[d as int].with_video(Some(Seq::empty())),
            ));
        }
        Ok(FreenectVideoStream { device: d })
    }

    /// Looks up the native depth mode for a resolution and format and applies
    /// it. Fails when the lookup finds no valid mode (the mode is then not
    /// applied) or the native mode change fails.
    pub fn set_depth_mode<N: FreenectNative>(
        &self,
        ctx: &mut FreenectContext<N>,
        resol: FreenectResolution,
        format: FreenectDepthFormat,
    ) -> (r: FreenectResult<()>)
        ensures
            final(ctx).registry() == old(ctx).registry(),
            final(ctx).same_setup(old(ctx)),
            !old(ctx).device_live(self.id()) ==> {
                &&& outcome(r) == Some(FreenectErrorKind::DeviceNotFound)
                &&& final(ctx).native_calls() == old(ctx).native_calls()
            },
            old(ctx).device_live(self.id()) ==> ({
                let log0 = old(ctx).native_calls();
                let log = final(ctx).native_calls();
                let h = old(ctx).registry()[self.id()].handle;
                let m = mode_of(log[log0.len() as int]);
                let st = result_of(log[log0.len() + 1int]);
                let find = NativeCall::FindDepthMode(
                    resolution_code(resol),
                    depth_format_code(format),
                    m,
                );
                &&& m.is_valid ==> {
                    &&& log == log0 + seq![find, NativeCall::SetDepthMode(h, m, st)]
                    &&& (r is Ok <==> st >= 0)
                    &&& st < 0 ==> outcome(r) == Some(FreenectErrorKind::UnsupportedMode)
                }
                &&& !m.is_valid ==> {
                    &&& log == log0.push(find)
                    &&& outcome(r) == Some(FreenectErrorKind::UnsupportedMode)
                }
            }),
    {
        let handle = match ctx.live_handle(self.index) {
            Some(h) => h,
            None => return Err(
                FreenectError::new(FreenectErrorKind::DeviceNotFound, "Device not found"),
            ),
        };
        let rc = resol.to_c();
        let fc = format.to_c();
        let mode = ctx.native.find_depth_mode(rc, fc);
        ctx.calls = Ghost(ctx.calls@.push(NativeCall::FindDepthMode(rc, fc, mode)));
        if !mode.is_valid {
            return Err(
                FreenectError::new(FreenectErrorKind::UnsupportedMode, "Unable to set depth mode"),
            );
        }
        let status = ctx.native.set_depth_mode(handle, mode);
        ctx.calls = Ghost(ctx.calls@.push(NativeCall::SetDepthMode(handle, mode, status)));
        proof {
            assert(ctx.calls@ =~= old(ctx).native_calls() + seq![
                NativeCall::FindDepthMode(rc, fc, mode),
                NativeCall::SetDepthMode(handle, mode, status),
            ]);
        }
        status_result(status, FreenectErrorKind::UnsupportedMode, "Unable to set depth mode")
    }

    /// Looks up the native video mode for a resolution and format and applies
    /// it. Fails when the lookup finds no valid mode (the mode is then not
    /// applied) or the native mode change fails.
    pub fn set_video_mode<N: FreenectNative>(
        &self,
        ctx: &mut FreenectContext<N>,
        resol: FreenectResolution,
        format: FreenectVideoFormat,
    ) -> (r: FreenectResult<()>)
        ensures
            final(ctx).registry() == old(ctx).registry(),
            final(ctx).same_setup(old(ctx)),
            !old(ctx).device_live(self.id()) ==> {
                &&& outcome(r) == Some(FreenectErrorKind::DeviceNotFound)
                &&& final(ctx).native_calls() == old(ctx).native_calls()
            },
            old(ctx).device_live(self.id()) ==> ({
                let log0 = old(ctx).native_calls();
                let log = final(ctx).native_calls();
                let h = old(ctx).registry()[self.id()].handle;
                let m = mode_of(log[log0.len() as int]);
                let st = result_of(log[log0.len() + 1int]);
                let find = NativeCall::FindVideoMode(
                    resolution_code(resol),
                    video_format_code(format),
                    m,
                );
                &&& m.is_valid ==> {
                    &&& log == log0 + seq![find, NativeCall::SetVideoMode(h, m, st)]
                    &&& (r is Ok <==> st >= 0)
                    &&& st < 0 ==> outcome(r) == Some(FreenectErrorKind::UnsupportedMode)
                }
                &&& !m.is_valid ==> {
                    &&& log == log0.push(find)
                    &&& outcome(r) == Some(FreenectErrorKind::UnsupportedMode)
                }
            }),
    {
        let handle = match ctx.live_handle(self.index) {
            Some(h) => h,
            None => return Err(
                FreenectError::new(FreenectErrorKind::DeviceNotFound, "Device not found"),
            ),
        };
        let rc = resol.to_c();
        let fc = format.to_c();
        let mode = ctx.native.find_video_mode(rc, fc);
        ctx.calls = Ghost(ctx.calls@.push(NativeCall::FindVideoMode(rc, fc, mode)));
        if !mode.is_valid {
            return Err(
                FreenectError::new(
                    FreenectErrorKind::UnsupportedMode,
                    "Unable to change video mode",
                ),
            );
        }
        let status = ctx.native.set_video_mode(handle, mode);
        ctx.calls = Ghost(ctx.calls@.push(NativeCall::SetVideoMode(handle, mode, status)));
        proof {
            assert(ctx.calls@ =~= old(ctx).native_calls() + seq![
                NativeCall::FindVideoMode(rc, fc, mode),
                NativeCall::SetVideoMode(handle, mode, status),
            ]);
        }
        status_result(status, FreenectErrorKind::UnsupportedMode, "Unable to change video mode")
    }

    /// Refreshes the tilt state and returns the motor's angle as the driver
    /// reads it, in half degrees.
    pub fn get_tilt_degree<N: FreenectNative>(&self, ctx: &mut FreenectContext<N>) -> (r:
        FreenectResult<i32>)
        ensures
            final(ctx).registry() == old(ctx).registry(),
            final(ctx).same_setup(old(ctx)),
            !old(ctx).device_live(self.id()) ==> {
                &&& outcome(r) == Some(FreenectErrorKind::DeviceNotFound)
                &&& final(ctx).native_calls() == old(ctx).native_calls()
            },
            old(ctx).device_live(self.id()) ==> ({
                let log0 = old(ctx).native_calls();
                let log = final(ctx).native_calls();
                let h = old(ctx).registry()[self.id()].handle;
                let st = result_of(log[log0.len() as int]);
                let a = result_of(log[log0.len() + 1int]);
                &&& st < 0 ==> {
                    &&& log == log0.push(NativeCall::UpdateTilt(h, st))
                    &&& outcome(r) == Some(FreenectErrorKind::TiltQueryError)
                }
                &&& st >= 0 ==> {
                    &&& log == log0 + seq![NativeCall::UpdateTilt(h, st), NativeCall::GetTilt(h, a)]
                    &&& r matches Ok(x) && x == a
                }
            }),
    {
        let handle = match ctx.live_handle(self.index) {
            Some(h) => h,
            None => return Err(
                FreenectError::new(FreenectErrorKind::DeviceNotFound, "Device not found"),
            ),
        };
        let status = ctx.native.update_tilt_state(handle);
        ctx.calls = Ghost(ctx.calls@.push(NativeCall::UpdateTilt(handle, status)));
        match status_result(status, FreenectErrorKind::TiltQueryError, "Unable to update tilt state") {
            Ok(()) => {
                let angle = ctx.native.get_tilt_half_degrees(handle);
                ctx.calls = Ghost(ctx.calls@.push(NativeCall::GetTilt(handle, angle)));
                proof {
                    assert(ctx.calls@ =~= old(ctx).native_calls() + seq![
                        NativeCall::UpdateTilt(handle, status),
                        NativeCall::GetTilt(handle, angle),
                    ]);
                }
                Ok(angle)
            },
            Err(e) => Err(e),
        }
    }

    /// Moves the motor to `half_degrees` half degrees. The angle is passed to
    /// the driver as it is; the driver applies its own limits.
    pub fn set_tilt_degree<N: FreenectNative>(
        &self,
        ctx: &mut FreenectContext<N>,
        half_degrees: i32,
    ) -> (r: FreenectResult<()>)
        ensures
            final(ctx).registry() == old(ctx).registry(),
            final(ctx).same_setup(old(ctx)),
            !old(ctx).device_live(self.id()) ==> {
                &&& outcome(r) == Some(FreenectErrorKind::DeviceNotFound)
                &&& final(ctx).native_calls() == old(ctx).native_calls()
            },
            old(ctx).device_live(self.id()) ==> ({
                let log0 = old(ctx).native_calls();
                let h = old(ctx).registry()[self.id()].handle;
                let st = result_of(final(ctx).native_calls()[log0.len() as int]);
                &&& final(ctx).native_calls() == log0.push(NativeCall::SetTilt(h, half_degrees, st))
                &&& (r is Ok <==> st >= 0)
                &&& st < 0 ==> outcome(r) == Some(FreenectErrorKind::TiltSetError)
            }),
    {
        let handle = match ctx.live_handle(self.index) {
            Some(h) => h,
            None => return Err(
                FreenectError::new(FreenectErrorKind::DeviceNotFound, "Device not found"),
            ),
        };
        let status = ctx.native.set_tilt_half_degrees(handle, half_degrees);
        ctx.calls = Ghost(ctx.calls@.push(NativeCall::SetTilt(handle, half_degrees, status)));
        status_result(status, FreenectErrorKind::TiltSetError, "Unable to set tilt degree")
    }
}

impl FreenectDepthStream {
    /// Takes the oldest buffered depth frame without waiting: `None` when no
    /// frame is buffered, `StreamClosed` when the stream was torn down with
    /// its device.
    pub fn try_receive<N: FreenectNative>(&self, ctx: &mut FreenectContext<N>) -> (r: FreenectResult<
        Option<DepthFrame>,
    >)
        requires
            old(ctx).wf(),
        ensures
            final(ctx).wf(),
            final(ctx).same_setup(old(ctx)),
            match device_at(old(ctx).registry(), self.id()).depth {
                Some(q) => {
                    &&& r matches Ok(f) && f == take_spec(q).0
                    &&& final(ctx).registry() == old(ctx).registry().update(
                        self.id(),
                        old(ctx).registry()[self.id()].with_depth(Some(take_spec(q).1)),
                    )
                },
                None => {
                    &&& outcome(r) == Some(FreenectErrorKind::StreamClosed)
                    &&& final(ctx).registry() == old(ctx).registry()
                },
            },
            final(ctx).native_calls() == old(ctx).native_calls(),
            device_at(old(ctx).registry(), self.id()).depth is Some ==> (r matches Ok(f) && (
            f, final(ctx).registry()) == depth_receive_spec(old(ctx).registry(), self.id())),
    {
        let d = self.device;
        if d >= ctx.devices.len() {
            return Err(FreenectError::new(FreenectErrorKind::StreamClosed, "Stream closed"));
        }
        let ghost before = ctx.devices@[d as int];
        match &mut ctx.devices[d].depth {
            Some(q) => {
                proof {
                    assert(old(ctx).registry()[d as int].wf());
                }
                let f = q.take();
                proof {
                    let v = old(ctx).registry()[d as int].with_depth(Some(take_spec(before.depth->0@).1));
                    assert(ctx.registry() =~= old(ctx).registry().update(d as int, v));
                    lemma_update_wf(old(ctx).registry(), d as int, v);
                }
                Ok(f)
            },
            None => {
                proof {
                    assert(ctx.registry() =~= old(ctx).registry());
                }
                Err(FreenectError::new(FreenectErrorKind::StreamClosed, "Stream closed"))
            },
        }
    }

    /// Tears the stream down: stops native depth streaming and empties the
    /// device's depth slot.
    pub fn close<N: FreenectNative>(self, ctx: &mut FreenectContext<N>)
        requires
            old(ctx).wf(),
        ensures
            final(ctx).wf(),
            final(ctx).same_setup(old(ctx)),
            final(ctx).registry() == put(
                old(ctx).registry(),
                self.id(),
                device_at(old(ctx).registry(), self.id()).with_depth(None),
            ),
            final(ctx).native_calls() == if device_at(old(ctx).registry(), self.id()).depth is Some {
                old(ctx).native_calls().push(
                    NativeCall::StopDepth(device_at(old(ctx).registry(), self.id()).handle),
                )
            } else {
                old(ctx).native_calls()
            },
    {
        let d = self.device;
        if d < ctx.devices.len() && ctx.devices[d].depth.is_some() {
            let handle = ctx.devices[d].handle;
            ctx.native.stop_depth(handle);
            ctx.calls = Ghost(ctx.calls@.push(NativeCall::StopDepth(handle)));
            ctx.devices[d].depth = None;
            proof {
                assert(ctx.registry() =~= old(ctx).registry().update(
                    d as int,
                    old(ctx).registry()[d as int].with_depth(None),
                ));
            }
        } else {
            proof {
                if d < old(ctx).registry().len() {
                    assert(old(ctx).registry()[d as int].with_depth(None) == old(ctx).registry()[d as int]);
                    assert(old(ctx).registry().update(d as int, old(ctx).registry()[d as int]) =~= old(ctx).registry());
                }
            }
        }
    }
}

impl FreenectVideoStream {
    /// Takes the oldest buffered video frame without waiting: `None` when no
    /// frame is buffered, `StreamClosed` when the stream was torn down with
    /// its device.
    pub fn try_receive<N: FreenectNative>(&self, ctx: &mut FreenectContext<N>) -> (r: FreenectResult<
        Option<VideoFrame>,
    >)
        requires
            old(ctx).wf(),
        ensures
            final(ctx).wf(),
            final(ctx).same_setup(old(ctx)),
            match device_at(old(ctx).registry(), self.id()).video {
                Some(q) => {
                    &&& r matches Ok(f) && f == take_spec(q).0
                    &&& final(ctx).registry() == old(ctx).registry().update(
                        self.id(),
                        old(ctx).registry()[self.id()].with_video(Some(take_spec(q).1)),
                    )
                },
                None => {
                    &&& outcome(r) == Some(FreenectErrorKind::StreamClosed)
                    &&& final(ctx).registry() == old(ctx).registry()
                },
            },
            final(ctx).native_calls() == old(ctx).native_calls(),
            device_at(old(ctx).registry(), self.id()).video is Some ==> (r matches Ok(f) && (
            f, final(ctx).registry()) == video_receive_spec(old(ctx).registry(), self.id())),
    {
        let d = self.device;
        if d >= ctx.devices.len() {
            return Err(FreenectError::new(FreenectErrorKind::StreamClosed, "Stream closed"));
        }
        let ghost before = ctx.devices@[d as int];
        match &mut ctx.devices[d].video {
            Some(q) => {
                proof {
                    assert(old(ctx).registry()[d as int].wf());
                }
                let f = q.take();
                proof {
                    let v = old(ctx).registry()[d as int].with_video(Some(take_spec(before.video->0@).1));
                    assert(ctx.registry() =~= old(ctx).registry().update(d as int, v));
                    lemma_update_wf(old(ctx).registry(), d as int, v);
                }
                Ok(f)
            },
            None => {
                proof {
                    assert(ctx.registry() =~= old(ctx).registry());
                }
                Err(FreenectError::new(FreenectErrorKind::StreamClosed, "Stream closed"))
            },
        }
    }

    /// Tears the stream down: stops native video streaming and empties the
    /// device's video slot.
    pub fn close<N: FreenectNative>(self, ctx: &mut FreenectContext<N>)
        requires
            old(ctx).wf(),
        ensures
            final(ctx).wf(),
            final(ctx).same_setup(old(ctx)),
            final(ctx).registry() == put(
                old(ctx).registry(),
                self.id(),
                device_at(old(ctx).registry(), self.id()).with_video(None),
            ),
            final(ctx).native_calls() == if device_at(old(ctx).registry(), self.id()).video is Some {
                old(ctx).native_calls().push(
                    NativeCall::StopVideo(device_at(old(ctx).registry(), self.id()).handle),
                )
            } else {
                old(ctx).native_calls()
            },
    {
        let d = self.device;
        if d < ctx.devices.len() && ctx.devices[d].video.is_some() {
            let handle = ctx.devices[d].handle;
            ctx.native.stop_video(handle);
            ctx.calls = Ghost(ctx.calls@.push(NativeCall::StopVideo(handle)));
            ctx.devices[d].video = None;
            proof {
                assert(ctx.registry() =~= old(ctx).registry().update(
                    d as int,
                    old(ctx).registry()[d as int].with_video(None),
                ));
            }
        } else {
            proof {
                if d < old(ctx).registry().len() {
                    assert(old(ctx).registry()[d as int].with_video(None) == old(ctx).registry()[d as int]);
                    assert(old(ctx).registry().update(d as int, old(ctx).registry()[d as int]) =~= old(ctx).registry());
                }
            }
        }
    }
}

} // verus!
