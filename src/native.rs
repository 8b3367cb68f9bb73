use std::collections::VecDeque;
use vstd::prelude::*;

verus! {

/// The native status the event pump returns when a system call inside it was
/// interrupted; the pump may simply be called again.
pub const ERROR_INTERRUPTED: i32 = -10;

/// A frame mode as the native mode lookup returns it.
#[derive(Debug, Clone, Copy, PartialEq, Eq, Structural)]
pub struct NativeFrameMode {
    /// The native resolution code the lookup was asked for.
    pub resolution: u32,
    /// The native format code the lookup was asked for.
    pub format: u32,
    pub width: u32,
    pub height: u32,
    pub bits_per_sample: u32,
    /// Whether the driver supports the mode.
    pub is_valid: bool,
}

/// A completed frame, as the native event pump hands it to the callback that
/// was registered for its kind. `user` is the opaque user data that was
/// installed on the device that produced it.
pub enum NativeFrame {
    Depth { user: usize, data: Vec<u16>, timestamp: u32 },
    Video { user: usize, data: Vec<u8>, timestamp: u32 },
}

/// The native driver: a context handle with its devices, addressed by the
/// native device handles it returns. Status results follow the driver's
/// convention: negative on failure. The binding layer assumes nothing of the
/// values returned; it only decides what to do with them.
pub trait FreenectNative {
    /// Allocates the native context.
    fn init(&mut self) -> i32;

    /// Releases the native context.
    fn shutdown(&mut self);

    /// Selects which subdevices (camera, motor) the driver activates.
    fn select_subdevices(&mut self, flags: u32);

    /// The number of devices attached.
    fn num_devices(&mut self) -> i32;

    /// Opens the device at `index`: a status and, on success, its handle.
    fn open_device(&mut self, index: u32) -> (i32, u32);

    fn close_device(&mut self, dev: u32);

    /// Installs the opaque user data that frames of `dev` carry back.
    fn set_user(&mut self, dev: u32, user: usize);

    /// Registers the depth callback of `dev`.
    fn set_depth_callback(&mut self, dev: u32);

    /// Registers the video callback of `dev`.
    fn set_video_callback(&mut self, dev: u32);

    fn find_depth_mode(&mut self, resolution: u32, format: u32) -> NativeFrameMode;

    fn find_video_mode(&mut self, resolution: u32, format: u32) -> NativeFrameMode;

    fn set_depth_mode(&mut self, dev: u32, mode: NativeFrameMode) -> i32;

    fn set_video_mode(&mut self, dev: u32, mode: NativeFrameMode) -> i32;

    fn start_depth(&mut self, dev: u32) -> i32;

    fn stop_depth(&mut self, dev: u32) -> i32;

    fn start_video(&mut self, dev: u32) -> i32;

    fn stop_video(&mut self, dev: u32) -> i32;

    /// Refreshes the cached tilt state of `dev`.
    fn update_tilt_state(&mut self, dev: u32) -> i32;

    /// The cached tilt angle of `dev`, in half degrees (the motor's resolution).
    fn get_tilt_half_degrees(&mut self, dev: u32) -> i32;

    /// Moves the motor of `dev` to an angle in half degrees.
    fn set_tilt_half_degrees(&mut self, dev: u32, angle: i32) -> i32;

    /// Processes one batch of driver events: a status, and the frames that
    /// completed, in the order the driver produced them.
    fn process_events(&mut self) -> (i32, VecDeque<NativeFrame>);
}

/// One call the binding layer made into the native driver, with what the
/// driver returned where the binding layer reads it.
pub enum NativeCall {
    /// `init`, with its status.
    Init(i32),
    Shutdown,
    SelectSubdevices(u32),
    /// `num_devices`, with its result.
    NumDevices(i32),
    /// `open_device(index)`, with its status and handle.
    OpenDevice(u32, i32, u32),
    CloseDevice(u32),
    SetUser(u32, usize),
    SetDepthCallback(u32),
    SetVideoCallback(u32),
    /// `find_depth_mode(resolution, format)`, with the mode found.
    FindDepthMode(u32, u32, NativeFrameMode),
    FindVideoMode(u32, u32, NativeFrameMode),
    /// `set_depth_mode(dev, mode)`, with its status.
    SetDepthMode(u32, NativeFrameMode, i32),
    SetVideoMode(u32, NativeFrameMode, i32),
    /// `start_depth(dev)`, with its status.
    StartDepth(u32, i32),
    StopDepth(u32),
    StartVideo(u32, i32),
    StopVideo(u32),
    /// `update_tilt_state(dev)`, with its status.
    UpdateTilt(u32, i32),
    /// `get_tilt_half_degrees(dev)`, with the angle read.
    GetTilt(u32, i32),
    /// `set_tilt_half_degrees(dev, angle)`, with its status.
    SetTilt(u32, i32, i32),
    /// `process_events`, with its status and the frames it completed.
    ProcessEvents(i32, Seq<NativeFrame>),
}

/// The status, count or angle a logged call returned (0 for calls that
/// return none).
pub open spec fn result_of(c: NativeCall) -> i32 {
    match c {
        NativeCall::Init(s) => s,
        NativeCall::NumDevices(s) => s,
        NativeCall::OpenDevice(_, s, _) => s,
        NativeCall::SetDepthMode(_, _, s) => s,
        NativeCall::SetVideoMode(_, _, s) => s,
        NativeCall::StartDepth(_, s) => s,
        NativeCall::StartVideo(_, s) => s,
        NativeCall::UpdateTilt(_, s) => s,
        NativeCall::GetTilt(_, a) => a,
        NativeCall::SetTilt(_, _, s) => s,
        NativeCall::ProcessEvents(s, _) => s,
        _ => 0,
    }
}

/// The handle a logged `open_device` returned.
pub open spec fn handle_of(c: NativeCall) -> u32 {
    match c {
        NativeCall::OpenDevice(_, _, h) => h,
        _ => 0,
    }
}

/// The mode a logged mode lookup returned.
pub open spec fn mode_of(c: NativeCall) -> NativeFrameMode {
    match c {
        NativeCall::FindDepthMode(_, _, m) => m,
        NativeCall::FindVideoMode(_, _, m) => m,
        _ => NativeFrameMode {
            resolution: 0,
            format: 0,
            width: 0,
            height: 0,
            bits_per_sample: 0,
            is_valid: false,
        },
    }
}

/// The frames a logged `process_events` returned.
pub open spec fn frames_of(c: NativeCall) -> Seq<NativeFrame> {
    match c {
        NativeCall::ProcessEvents(_, f) => f,
        _ => Seq::empty(),
    }
}

} // verus!
