pub mod error;
pub mod modes;
pub mod frames;
pub mod native;
pub mod freenect;
pub mod timer;
