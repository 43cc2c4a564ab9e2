//! Screen capture: displays, windows and captured frames.

pub mod device;
pub mod display;
pub mod frame;
pub mod windows;
