use vstd::prelude::*;

verus! {

/// Bit of the native subdevice selection that activates the motor.
pub const DEVICE_MOTOR: u32 = 1;

/// Bit of the native subdevice selection that activates the camera.
pub const DEVICE_CAMERA: u32 = 2;

/// Resolutions a depth or video mode can be requested in.
#[derive(Debug, Clone, Copy, PartialEq, Eq, Structural)]
pub enum FreenectResolution {
    Low,
    Medium,
    High,
}

/// Video formats the camera can deliver.
#[derive(Debug, Clone, Copy, PartialEq, Eq, Structural)]
pub enum FreenectVideoFormat {
    Rgb,
    Bayer,
    IR8,
    IR10,
    IR10Packed,
    YuvRgb,
    YuvRaw,
}

/// Depth formats the camera can deliver.
#[derive(Debug, Clone, Copy, PartialEq, Eq, Structural)]
pub enum FreenectDepthFormat {
    Bit11,
    Bit10,
    Bit11Packed,
    Bit10Packed,
    Registered,
    MM,
}

/// The native driver's code for a resolution.
pub open spec fn resolution_code(r: FreenectResolution) -> u32 {
    match r {
        FreenectResolution::Low => 0,
        FreenectResolution::Medium => 1,
        FreenectResolution::High => 2,
    }
}

/// The native driver's code for a video format.
pub open spec fn video_format_code(f: FreenectVideoFormat) -> u32 {
    match f {
        FreenectVideoFormat::Rgb => 0,
        FreenectVideoFormat::Bayer => 1,
        FreenectVideoFormat::IR8 => 2,
        FreenectVideoFormat::IR10 => 3,
        FreenectVideoFormat::IR10Packed => 4,
        FreenectVideoFormat::YuvRgb => 5,
        FreenectVideoFormat::YuvRaw => 6,
    }
}

/// The native driver's code for a depth format.
pub open spec fn depth_format_code(f: FreenectDepthFormat) -> u32 {
    match f {
        FreenectDepthFormat::Bit11 => 0,
        FreenectDepthFormat::Bit10 => 1,
        FreenectDepthFormat::Bit11Packed => 2,
        FreenectDepthFormat::Bit10Packed => 3,
        FreenectDepthFormat::Registered => 4,
        FreenectDepthFormat::MM => 5,
    }
}

impl FreenectResolution {
    pub fn to_c(self) -> (c: u32)
        ensures
            c == resolution_code(self),
    {
        match self {
            FreenectResolution::Low => 0,
            FreenectResolution::Medium => 1,
            FreenectResolution::High => 2,
        }
    }
}

impl FreenectVideoFormat {
    pub fn to_c(self) -> (c: u32)
        ensures
            c == video_format_code(self),
    {
        match self {
            FreenectVideoFormat::Rgb => 0,
            FreenectVideoFormat::Bayer => 1,
            FreenectVideoFormat::IR8 => 2,
            FreenectVideoFormat::IR10 => 3,
            FreenectVideoFormat::IR10Packed => 4,
            FreenectVideoFormat::YuvRgb => 5,
            FreenectVideoFormat::YuvRaw => 6,
        }
    }
}

impl FreenectDepthFormat {
    pub fn to_c(self) -> (c: u32)
        ensures
            c == depth_format_code(self),
    {
        match self {
            FreenectDepthFormat::Bit11 => 0,
            FreenectDepthFormat::Bit10 => 1,
            FreenectDepthFormat::Bit11Packed => 2,
            FreenectDepthFormat::Bit10Packed => 3,
            FreenectDepthFormat::Registered => 4,
            FreenectDepthFormat::MM => 5,
        }
    }
}

} // verus!
