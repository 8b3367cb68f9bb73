use std::collections::VecDeque;

use freenectrs::error::{status_result, FreenectErrorKind, FreenectResult};
use freenectrs::frames::{Frame, FrameQueue, DEPTH_FRAME_LEN, STREAM_CAPACITY, VIDEO_FRAME_LEN};
use freenectrs::freenect::{
    device_count_result, device_index_check, process_loop_continues, FreenectContext,
    FreenectDevice, StopSignal,
};
use freenectrs::modes::{FreenectDepthFormat, FreenectResolution, FreenectVideoFormat};
use freenectrs::native::{FreenectNative, NativeFrame, NativeFrameMode, ERROR_INTERRUPTED};
use freenectrs::timer::FixWaitTimer;

/// A native layer that simulates attached devices and records what it is asked.
struct FakeNative {
    init_status: i32,
    count_status: i32,
    open_status: i32,
    start_status: i32,
    mode_valid: bool,
    mode_status: i32,
    tilt_query_status: i32,
    tilt_set_status: i32,
    tilt: i32,
    pump_status: i32,
    pending: VecDeque<NativeFrame>,
    depth_lookups: Vec<(u32, u32)>,
    video_lookups: Vec<(u32, u32)>,
    users: Vec<(u32, usize)>,
    calls: Vec<String>,
}

impl FakeNative {
    fn with_devices(n: i32) -> FakeNative {
        FakeNative {
            init_status: 0,
            count_status: n,
            open_status: 0,
            start_status: 0,
            mode_valid: true,
            mode_status: 0,
            tilt_query_status: 0,
            tilt_set_status: 0,
            tilt: 0,
            pump_status: 0,
            pending: VecDeque::new(),
            depth_lookups: Vec::new(),
            video_lookups: Vec::new(),
            users: Vec::new(),
            calls: Vec::new(),
        }
    }

    fn mode(resolution: u32, format: u32, bits: u32, valid: bool) -> NativeFrameMode {
        let (width, height) = match resolution {
            0 => (320, 240),
            1 => (640, 480),
            _ => (1280, 1024),
        };
        NativeFrameMode { resolution, format, width, height, bits_per_sample: bits, is_valid: valid }
    }
}

impl FreenectNative for FakeNative {
    fn init(&mut self) -> i32 {
        self.calls.push("init".to_string());
        self.init_status
    }
    fn shutdown(&mut self) {
        self.calls.push("shutdown".to_string());
    }
    fn select_subdevices(&mut self, flags: u32) {
        self.calls.push(format!("select {}", flags));
    }
    fn num_devices(&mut self) -> i32 {
        self.count_status
    }
    fn open_device(&mut self, index: u32) -> (i32, u32) {
        self.calls.push(format!("open {}", index));
        (self.open_status, 100 + index)
    }
    fn close_device(&mut self, dev: u32) {
        self.calls.push(format!("close {}", dev));
    }
    fn set_user(&mut self, dev: u32, user: usize) {
        self.users.push((dev, user));
    }
    fn set_depth_callback(&mut self, dev: u32) {
        self.calls.push(format!("depth callback {}", dev));
    }
    fn set_video_callback(&mut self, dev: u32) {
        self.calls.push(format!("video callback {}", dev));
    }
    fn find_depth_mode(&mut self, resolution: u32, format: u32) -> NativeFrameMode {
        self.depth_lookups.push((resolution, format));
        FakeNative::mode(resolution, format, 16, self.mode_valid)
    }
    fn find_video_mode(&mut self, resolution: u32, format: u32) -> NativeFrameMode {
        self.video_lookups.push((resolution, format));
        FakeNative::mode(resolution, format, 24, self.mode_valid)
    }
    fn set_depth_mode(&mut self, dev: u32, mode: NativeFrameMode) -> i32 {
        self.calls.push(format!("set depth mode {} {} {}", dev, mode.resolution, mode.format));
        self.mode_status
    }
    fn set_video_mode(&mut self, _dev: u32, _mode: NativeFrameMode) -> i32 {
        self.mode_status
    }
    fn start_depth(&mut self, dev: u32) -> i32 {
        self.calls.push(format!("start depth {}", dev));
        self.start_status
    }
    fn stop_depth(&mut self, dev: u32) -> i32 {
        self.calls.push(format!("stop depth {}", dev));
        0
    }
    fn start_video(&mut self, dev: u32) -> i32 {
        self.calls.push(format!("start video {}", dev));
        self.start_status
    }
    fn stop_video(&mut self, dev: u32) -> i32 {
        self.calls.push(format!("stop video {}", dev));
        0
    }
    fn update_tilt_state(&mut self, _dev: u32) -> i32 {
        self.tilt_query_status
    }
    fn get_tilt_half_degrees(&mut self, _dev: u32) -> i32 {
        self.tilt
    }
    fn set_tilt_half_degrees(&mut self, _dev: u32, angle: i32) -> i32 {
        if self.tilt_set_status >= 0 {
            self.tilt = angle;
        }
        self.tilt_set_status
    }
    fn process_events(&mut self) -> (i32, VecDeque<NativeFrame>) {
        (self.pump_status, std::mem::take(&mut self.pending))
    }
}

fn kind_of<T>(r: &FreenectResult<T>) -> Option<FreenectErrorKind> {
    match r {
        Ok(_) => None,
        Err(e) => Some(e.kind()),
    }
}

fn depth_frame(timestamp: u32) -> Vec<u16> {
    vec![(timestamp % 65536) as u16; 4]
}

fn context_with(native: FakeNative) -> FreenectContext<FakeNative> {
    match FreenectContext::init_with_video_motor(native) {
        Ok(c) => c,
        Err(e) => panic!("init failed: {}", e.description()),
    }
}

fn open_first(ctx: &mut FreenectContext<FakeNative>) -> FreenectDevice {
    match ctx.open_device(0) {
        Ok(d) => d,
        Err(e) => panic!("open failed: {}", e.description()),
    }
}

#[test]
fn video_stream_unsupported_without_video_setup() {
    let mut ctx = match FreenectContext::init(FakeNative::with_devices(1)) {
        Ok(c) => c,
        Err(_) => panic!("init failed"),
    };
    let dev = open_first(&mut ctx);
    let r = dev.video_stream(&mut ctx);
    assert_eq!(kind_of(&r), Some(FreenectErrorKind::VideoUnsupported));
    // Depth needs no video support.
    assert!(dev.depth_stream(&mut ctx).is_ok());
}

#[test]
fn video_stream_allowed_with_video_setup() {
    for ctx in [
        FreenectContext::init_with_video(FakeNative::with_devices(1)),
        FreenectContext::init_with_video_motor(FakeNative::with_devices(1)),
    ] {
        let mut ctx = match ctx {
            Ok(c) => c,
            Err(_) => panic!("init failed"),
        };
        let dev = open_first(&mut ctx);
        let r = dev.video_stream(&mut ctx);
        assert!(r.is_ok());
    }
}

#[test]
fn setup_selects_subdevices() {
    let ctx = context_with(FakeNative::with_devices(1));
    let (native, _) = ctx.shutdown();
    assert!(native.calls.contains(&"select 3".to_string()));
    let ctx = match FreenectContext::init_with_video(FakeNative::with_devices(1)) {
        Ok(c) => c,
        Err(_) => panic!("init failed"),
    };
    let (native, _) = ctx.shutdown();
    assert!(native.calls.contains(&"select 2".to_string()));
}

#[test]
fn second_depth_stream_refused_until_first_closed() {
    let mut ctx = context_with(FakeNative::with_devices(1));
    let dev = open_first(&mut ctx);
    let first = dev.depth_stream(&mut ctx).ok().unwrap();
    let second = dev.depth_stream(&mut ctx);
    assert_eq!(kind_of(&second), Some(FreenectErrorKind::StreamAlreadyOpen));
    first.close(&mut ctx);
    let third = dev.depth_stream(&mut ctx);
    assert!(third.is_ok());
}

#[test]
fn second_video_stream_refused_until_first_closed() {
    let mut ctx = context_with(FakeNative::with_devices(1));
    let dev = open_first(&mut ctx);
    let first = dev.video_stream(&mut ctx).ok().unwrap();
    let second = dev.video_stream(&mut ctx);
    assert_eq!(kind_of(&second), Some(FreenectErrorKind::StreamAlreadyOpen));
    first.close(&mut ctx);
    assert!(dev.video_stream(&mut ctx).is_ok());
}

#[test]
fn close_stops_native_streaming() {
    let mut ctx = context_with(FakeNative::with_devices(1));
    let dev = open_first(&mut ctx);
    let d = dev.depth_stream(&mut ctx).ok().unwrap();
    let v = dev.video_stream(&mut ctx).ok().unwrap();
    d.close(&mut ctx);
    v.close(&mut ctx);
    let (native, _) = ctx.shutdown();
    let calls = native.calls;
    let start = calls.iter().position(|c| c == "start depth 100").unwrap();
    let stop = calls.iter().position(|c| c == "stop depth 100").unwrap();
    assert!(start < stop);
    assert!(calls.contains(&"stop video 100".to_string()));
}

#[test]
fn open_device_checks_index_against_count() {
    let mut ctx = context_with(FakeNative::with_devices(2));
    assert_eq!(ctx.num_devices().ok(), Some(2));
    for i in 0..2u32 {
        assert!(ctx.open_device(i).is_ok());
    }
    for i in [2u32, 3, 10, u32::MAX] {
        let r = ctx.open_device(i);
        assert_eq!(kind_of(&r), Some(FreenectErrorKind::DeviceNotFound));
    }
}

#[test]
fn open_device_none_attached() {
    let mut ctx = context_with(FakeNative::with_devices(0));
    assert_eq!(kind_of(&ctx.open_device(0)), Some(FreenectErrorKind::DeviceNotFound));
}

#[test]
fn open_device_among_given_count() {
    let mut ctx = context_with(FakeNative::with_devices(5));
    assert_eq!(
        kind_of(&ctx.open_device_among(3, 3)),
        Some(FreenectErrorKind::DeviceNotFound)
    );
    assert!(ctx.open_device_among(2, 3).is_ok());
}

#[test]
fn device_count_query_failure() {
    let mut ctx = context_with(FakeNative::with_devices(-1));
    assert_eq!(kind_of(&ctx.num_devices()), Some(FreenectErrorKind::DriverQueryError));
    assert_eq!(kind_of(&ctx.open_device(0)), Some(FreenectErrorKind::DriverQueryError));
}

#[test]
fn driver_open_failure() {
    let mut native = FakeNative::with_devices(1);
    native.open_status = -1;
    let mut ctx = context_with(native);
    assert_eq!(kind_of(&ctx.open_device(0)), Some(FreenectErrorKind::DriverOpenError));
}

#[test]
fn driver_init_failure() {
    let mut native = FakeNative::with_devices(1);
    native.init_status = -1;
    let r = FreenectContext::init(native);
    assert_eq!(kind_of(&r), Some(FreenectErrorKind::DriverInitError));
    match r {
        Err(e) => assert_eq!(e.native_status(), Some(-1)),
        Ok(_) => panic!("expected an error"),
    }
}

#[test]
fn frames_arrive_in_order_without_duplicates() {
    let mut ctx = context_with(FakeNative::with_devices(1));
    let dev = open_first(&mut ctx);
    let stream = dev.depth_stream(&mut ctx).ok().unwrap();
    let mut seen: Vec<u32> = Vec::new();
    for t in 1..=20u32 {
        assert!(ctx.deliver_depth(0, depth_frame(t), t * 7));
        if let Ok(Some(f)) = stream.try_receive(&mut ctx) {
            seen.push(f.timestamp);
        }
    }
    assert_eq!(seen.len(), 20);
    for w in seen.windows(2) {
        assert!(w[0] < w[1]);
    }
}

#[test]
fn frames_from_event_pump_keep_driver_order() {
    let mut native = FakeNative::with_devices(1);
    for t in [10u32, 11, 12] {
        native.pending.push_back(NativeFrame::Depth { user: 0, data: depth_frame(t), timestamp: t });
    }
    let mut ctx = context_with(native);
    let dev = open_first(&mut ctx);
    let stream = dev.depth_stream(&mut ctx).ok().unwrap();
    assert_eq!(ctx.process_events(), 0);
    let a = stream.try_receive(&mut ctx).ok().unwrap().unwrap();
    let b = stream.try_receive(&mut ctx).ok().unwrap().unwrap();
    assert_eq!((a.timestamp, b.timestamp), (10, 11));
    assert!(stream.try_receive(&mut ctx).ok().unwrap().is_none());
}

#[test]
fn full_buffer_drops_newer_frames() {
    let mut ctx = context_with(FakeNative::with_devices(1));
    let dev = open_first(&mut ctx);
    let stream = dev.depth_stream(&mut ctx).ok().unwrap();
    let kept: Vec<bool> = (1..=5u32).map(|t| ctx.deliver_depth(0, depth_frame(t), t)).collect();
    assert_eq!(kept, vec![true, true, false, false, false]);
    let first = stream.try_receive(&mut ctx).ok().unwrap().unwrap();
    let second = stream.try_receive(&mut ctx).ok().unwrap().unwrap();
    assert_eq!((first.timestamp, second.timestamp), (1, 2));
    assert!(stream.try_receive(&mut ctx).ok().unwrap().is_none());
}

#[test]
fn video_frames_buffered_and_dropped() {
    let mut ctx = context_with(FakeNative::with_devices(1));
    let dev = open_first(&mut ctx);
    let stream = dev.video_stream(&mut ctx).ok().unwrap();
    assert!(ctx.deliver_video(0, vec![1, 2, 3], 5));
    assert!(ctx.deliver_video(0, vec![4, 5, 6], 6));
    assert!(!ctx.deliver_video(0, vec![7, 8, 9], 7));
    let f = stream.try_receive(&mut ctx).ok().unwrap().unwrap();
    assert_eq!((f.data, f.timestamp), (vec![1, 2, 3], 5));
}

#[test]
fn callback_without_stream_takes_no_action() {
    let mut ctx = context_with(FakeNative::with_devices(1));
    let dev = open_first(&mut ctx);
    assert!(!ctx.deliver_depth(0, depth_frame(1), 1));
    assert!(!ctx.deliver_depth(7, depth_frame(1), 1));
    assert!(!ctx.deliver_video(0, vec![0; 3], 1));
    let stream = dev.depth_stream(&mut ctx).ok().unwrap();
    assert!(stream.try_receive(&mut ctx).ok().unwrap().is_none());
}

#[test]
fn stream_closed_after_device_closed() {
    let mut ctx = context_with(FakeNative::with_devices(1));
    let dev = open_first(&mut ctx);
    let stream = dev.depth_stream(&mut ctx).ok().unwrap();
    ctx.close_device(dev);
    let r = stream.try_receive(&mut ctx);
    assert_eq!(kind_of(&r), Some(FreenectErrorKind::StreamClosed));
    let (native, _) = ctx.shutdown();
    let stop = native.calls.iter().position(|c| c == "stop depth 100").unwrap();
    let close = native.calls.iter().position(|c| c == "close 100").unwrap();
    assert!(stop < close);
}

#[test]
fn stop_process_thread_without_thread_is_noop() {
    let mut ctx = context_with(FakeNative::with_devices(1));
    assert!(!ctx.stop_process_thread());
    assert!(!ctx.stop_process_thread());
}

#[test]
fn stop_process_thread_twice_after_spawn() {
    let mut ctx = context_with(FakeNative::with_devices(1));
    assert!(ctx.spawn_process_thread(false).is_ok());
    assert!(ctx.has_process_thread());
    assert!(ctx.stop_process_thread());
    assert!(!ctx.stop_process_thread());
    assert!(!ctx.has_process_thread());
}

#[test]
fn spawn_refused_while_running() {
    let mut ctx = context_with(FakeNative::with_devices(1));
    assert!(ctx.spawn_process_thread(false).is_ok());
    let r = ctx.spawn_process_thread(true);
    assert_eq!(kind_of(&r), Some(FreenectErrorKind::AlreadyRunning));
    // A thread that exited on its own no longer accepts the probe.
    assert!(ctx.spawn_process_thread(false).is_ok());
}

#[test]
fn process_loop_decisions() {
    assert!(process_loop_continues(StopSignal::Empty, 0));
    assert!(process_loop_continues(StopSignal::Probed, 3));
    assert!(process_loop_continues(StopSignal::Empty, ERROR_INTERRUPTED));
    assert!(!process_loop_continues(StopSignal::Empty, -1));
    assert!(!process_loop_continues(StopSignal::Disconnected, 0));
}

#[test]
fn depth_mode_medium_millimeter() {
    let mut ctx = context_with(FakeNative::with_devices(1));
    let dev = open_first(&mut ctx);
    let r = dev.set_depth_mode(&mut ctx, FreenectResolution::Medium, FreenectDepthFormat::MM);
    assert!(r.is_ok());
    let (native, _) = ctx.shutdown();
    assert_eq!(native.depth_lookups, vec![(1, 5)]);
    let mode = FakeNative::mode(1, 5, 16, true);
    assert_eq!((mode.width * mode.height) as usize, DEPTH_FRAME_LEN);
    assert_eq!(mode.bits_per_sample, 16);
}

#[test]
fn video_mode_medium_rgb() {
    let mut ctx = context_with(FakeNative::with_devices(1));
    let dev = open_first(&mut ctx);
    let r = dev.set_video_mode(&mut ctx, FreenectResolution::Medium, FreenectVideoFormat::Rgb);
    assert!(r.is_ok());
    let (native, _) = ctx.shutdown();
    assert_eq!(native.video_lookups, vec![(1, 0)]);
    assert_eq!(640 * 480 * 3, VIDEO_FRAME_LEN);
}

#[test]
fn unsupported_mode_reported() {
    let mut native = FakeNative::with_devices(1);
    native.mode_valid = false;
    let mut ctx = context_with(native);
    let dev = open_first(&mut ctx);
    let r = dev.set_depth_mode(&mut ctx, FreenectResolution::High, FreenectDepthFormat::Bit10);
    assert_eq!(kind_of(&r), Some(FreenectErrorKind::UnsupportedMode));
    let mut native = FakeNative::with_devices(1);
    native.mode_status = -1;
    let mut ctx = context_with(native);
    let dev = open_first(&mut ctx);
    let r = dev.set_video_mode(&mut ctx, FreenectResolution::Low, FreenectVideoFormat::Bayer);
    assert_eq!(kind_of(&r), Some(FreenectErrorKind::UnsupportedMode));
}

#[test]
fn stream_start_failure() {
    let mut native = FakeNative::with_devices(1);
    native.start_status = -1;
    let mut ctx = context_with(native);
    let dev = open_first(&mut ctx);
    assert_eq!(kind_of(&dev.depth_stream(&mut ctx)), Some(FreenectErrorKind::StreamStartError));
    assert_eq!(kind_of(&dev.video_stream(&mut ctx)), Some(FreenectErrorKind::StreamStartError));
}

#[test]
fn stream_installs_user_data() {
    let mut ctx = context_with(FakeNative::with_devices(2));
    let _first = open_first(&mut ctx);
    let second = ctx.open_device(1).ok().unwrap();
    let _s = second.depth_stream(&mut ctx).ok().unwrap();
    let (native, _) = ctx.shutdown();
    assert!(native.users.contains(&(101, 1)));
}

#[test]
fn tilt_round_trip() {
    let mut ctx = context_with(FakeNative::with_devices(1));
    let dev = open_first(&mut ctx);
    for x in [20i32, -20, 0, 61, -61, 1000] {
        assert!(dev.set_tilt_degree(&mut ctx, x).is_ok());
        assert_eq!(dev.get_tilt_degree(&mut ctx).ok(), Some(x));
    }
}

#[test]
fn tilt_failures_reported() {
    let mut native = FakeNative::with_devices(1);
    native.tilt_query_status = -1;
    native.tilt_set_status = -1;
    let mut ctx = context_with(native);
    let dev = open_first(&mut ctx);
    assert_eq!(kind_of(&dev.get_tilt_degree(&mut ctx)), Some(FreenectErrorKind::TiltQueryError));
    assert_eq!(kind_of(&dev.set_tilt_degree(&mut ctx, 4)), Some(FreenectErrorKind::TiltSetError));
}

#[test]
fn device_of_another_context_not_found() {
    let mut a = context_with(FakeNative::with_devices(2));
    let _first = open_first(&mut a);
    let second = a.open_device(1).ok().unwrap();
    let mut b = context_with(FakeNative::with_devices(1));
    assert_eq!(kind_of(&second.set_tilt_degree(&mut b, 2)), Some(FreenectErrorKind::DeviceNotFound));
    assert_eq!(kind_of(&second.get_tilt_degree(&mut b)), Some(FreenectErrorKind::DeviceNotFound));
    assert_eq!(kind_of(&second.depth_stream(&mut b)), Some(FreenectErrorKind::DeviceNotFound));
    assert_eq!(kind_of(&second.video_stream(&mut b)), Some(FreenectErrorKind::DeviceNotFound));
    let r = second.set_depth_mode(&mut b, FreenectResolution::Low, FreenectDepthFormat::Bit11);
    assert_eq!(kind_of(&r), Some(FreenectErrorKind::DeviceNotFound));
}

#[test]
fn resolution_codes() {
    assert_eq!(FreenectResolution::Low.to_c(), 0);
    assert_eq!(FreenectResolution::Medium.to_c(), 1);
    assert_eq!(FreenectResolution::High.to_c(), 2);
}

#[test]
fn video_format_codes() {
    let all = [
        FreenectVideoFormat::Rgb,
        FreenectVideoFormat::Bayer,
        FreenectVideoFormat::IR8,
        FreenectVideoFormat::IR10,
        FreenectVideoFormat::IR10Packed,
        FreenectVideoFormat::YuvRgb,
        FreenectVideoFormat::YuvRaw,
    ];
    let codes: Vec<u32> = all.iter().map(|f| f.to_c()).collect();
    assert_eq!(codes, vec![0, 1, 2, 3, 4, 5, 6]);
}

#[test]
fn depth_format_codes() {
    let all = [
        FreenectDepthFormat::Bit11,
        FreenectDepthFormat::Bit10,
        FreenectDepthFormat::Bit11Packed,
        FreenectDepthFormat::Bit10Packed,
        FreenectDepthFormat::Registered,
        FreenectDepthFormat::MM,
    ];
    let codes: Vec<u32> = all.iter().map(|f| f.to_c()).collect();
    assert_eq!(codes, vec![0, 1, 2, 3, 4, 5]);
}

#[test]
fn status_and_count_decisions() {
    assert_eq!(device_count_result(3).ok(), Some(3));
    assert_eq!(device_count_result(0).ok(), Some(0));
    assert_eq!(kind_of(&device_count_result(-4)), Some(FreenectErrorKind::DriverQueryError));
    assert!(device_index_check(0, 1).is_ok());
    assert_eq!(kind_of(&device_index_check(1, 1)), Some(FreenectErrorKind::DeviceNotFound));
    assert!(status_result(0, FreenectErrorKind::TiltSetError, "x").is_ok());
    let e = status_result(-2, FreenectErrorKind::TiltSetError, "Unable to set tilt degree");
    match e {
        Err(e) => {
            assert_eq!(e.kind(), FreenectErrorKind::TiltSetError);
            assert_eq!(e.description(), "Unable to set tilt degree");
        }
        Ok(()) => panic!("expected an error"),
    }
}

#[test]
fn frame_queue_fifo_and_capacity() {
    let mut q: FrameQueue<u8> = FrameQueue::new();
    assert_eq!(q.len(), 0);
    assert!(q.take().is_none());
    for t in 0..4u32 {
        q.offer(Frame { data: vec![t as u8], timestamp: t });
    }
    assert_eq!(q.len(), STREAM_CAPACITY);
    assert_eq!(q.take().unwrap().timestamp, 0);
    assert!(q.offer(Frame { data: vec![9], timestamp: 9 }));
    assert_eq!(q.take().unwrap().timestamp, 1);
    assert_eq!(q.take().unwrap().timestamp, 9);
    assert!(q.take().is_none());
}

#[test]
fn fix_wait_timer_waits_for_rest() {
    let t = FixWaitTimer::new(1_000);
    assert_eq!(t.wait_after(0), 1_000);
    assert_eq!(t.wait_after(400), 600);
    assert_eq!(t.wait_after(1_000), 0);
    assert_eq!(t.wait_after(5_000), 0);
    assert!(t.remaining() <= 1_000);
    let z = FixWaitTimer::new(0);
    assert_eq!(z.remaining(), 0);
}

#[test]
fn refused_streams_make_no_start_call() {
    let mut ctx = match FreenectContext::init(FakeNative::with_devices(1)) {
        Ok(c) => c,
        Err(_) => panic!("init failed"),
    };
    let dev = open_first(&mut ctx);
    assert!(dev.video_stream(&mut ctx).is_err());
    let _d = dev.depth_stream(&mut ctx).ok().unwrap();
    assert!(dev.depth_stream(&mut ctx).is_err());
    let (native, _) = ctx.shutdown();
    let starts_depth = native.calls.iter().filter(|c| c.starts_with("start depth")).count();
    let starts_video = native.calls.iter().filter(|c| c.starts_with("start video")).count();
    assert_eq!((starts_depth, starts_video), (1, 0));
}

#[test]
fn device_not_found_makes_no_open_call() {
    let mut ctx = context_with(FakeNative::with_devices(1));
    assert!(ctx.open_device(4).is_err());
    let (native, _) = ctx.shutdown();
    assert!(!native.calls.iter().any(|c| c.starts_with("open")));
}

#[test]
fn invalid_mode_not_applied() {
    let mut native = FakeNative::with_devices(1);
    native.mode_valid = false;
    let mut ctx = context_with(native);
    let dev = open_first(&mut ctx);
    assert!(dev.set_depth_mode(&mut ctx, FreenectResolution::Medium, FreenectDepthFormat::MM).is_err());
    let (native, _) = ctx.shutdown();
    assert!(!native.calls.iter().any(|c| c.starts_with("set depth mode")));
}

#[test]
fn valid_mode_handed_to_driver() {
    let mut ctx = context_with(FakeNative::with_devices(1));
    let dev = open_first(&mut ctx);
    assert!(dev.set_depth_mode(&mut ctx, FreenectResolution::Medium, FreenectDepthFormat::MM).is_ok());
    let (native, _) = ctx.shutdown();
    assert!(native.calls.contains(&"set depth mode 100 1 5".to_string()));
}

#[test]
fn dispatch_frames_in_order() {
    let mut ctx = context_with(FakeNative::with_devices(1));
    let dev = open_first(&mut ctx);
    let d = dev.depth_stream(&mut ctx).ok().unwrap();
    let v = dev.video_stream(&mut ctx).ok().unwrap();
    let mut frames = VecDeque::new();
    frames.push_back(NativeFrame::Video { user: 0, data: vec![1, 2, 3], timestamp: 4 });
    frames.push_back(NativeFrame::Depth { user: 0, data: depth_frame(5), timestamp: 5 });
    frames.push_back(NativeFrame::Depth { user: 0, data: depth_frame(6), timestamp: 6 });
    frames.push_back(NativeFrame::Depth { user: 0, data: depth_frame(7), timestamp: 7 });
    ctx.dispatch_frames(frames);
    let a = d.try_receive(&mut ctx).ok().unwrap().unwrap();
    let b = d.try_receive(&mut ctx).ok().unwrap().unwrap();
    assert_eq!((a.timestamp, b.timestamp), (5, 6));
    assert!(d.try_receive(&mut ctx).ok().unwrap().is_none());
    assert_eq!(v.try_receive(&mut ctx).ok().unwrap().unwrap().timestamp, 4);
}

#[test]
fn close_all_devices_stops_streams_then_closes() {
    let mut ctx = context_with(FakeNative::with_devices(2));
    let a = open_first(&mut ctx);
    let b = ctx.open_device(1).ok().unwrap();
    let _s = a.video_stream(&mut ctx).ok().unwrap();
    let _t = b.depth_stream(&mut ctx).ok().unwrap();
    ctx.close_all_devices();
    assert_eq!(kind_of(&a.set_tilt_degree(&mut ctx, 0)), Some(FreenectErrorKind::DeviceNotFound));
    let (native, _) = ctx.shutdown();
    let tail: Vec<String> = native.calls.iter().rev().take(5).rev().cloned().collect();
    assert_eq!(
        tail,
        vec!["stop video 100", "close 100", "stop depth 101", "close 101", "shutdown"]
            .into_iter()
            .map(|c| c.to_string())
            .collect::<Vec<String>>()
    );
}

#[test]
fn error_message_names_reason() {
    let r = device_index_check(2, 1);
    match r {
        Err(e) => assert_eq!(e.message(), "FreenectError: Device not found"),
        Ok(()) => panic!("expected an error"),
    }
}

#[test]
fn init_succeeds_on_non_negative_status() {
    let mut native = FakeNative::with_devices(1);
    native.init_status = 3;
    assert!(FreenectContext::init(native).is_ok());
}

#[test]
fn native_failures_carry_status() {
    let mut native = FakeNative::with_devices(1);
    native.open_status = -7;
    let mut ctx = context_with(native);
    match ctx.open_device(0) {
        Err(e) => assert_eq!(e.native_status(), Some(-7)),
        Ok(_) => panic!("expected an error"),
    }
    match device_index_check(5, 1) {
        Err(e) => assert_eq!(e.native_status(), None),
        Ok(()) => panic!("expected an error"),
    }
}
