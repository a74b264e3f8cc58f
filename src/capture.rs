//! The values that travel between the user interface, the capture worker and
//! the compositor.
use vstd::prelude::*;

verus! {

/// A request to capture the windows of one workspace on one monitor.
pub struct CaptureRequest {
    pub ws_id: i32,
    pub monitor_name: String,
}

/// The snapshot of one window: its raw 32-bit pixels as captured, and where
/// the window stands on its monitor.
pub struct WindowThumbnail {
    /// Rows of `stride` bytes, four bytes per pixel.
    pub data: Vec<u8>,
    pub width: u32,
    pub height: u32,
    pub stride: u32,
    /// Position relative to the monitor's origin.
    pub x: i32,
    pub y: i32,
    /// The window's declared size on the monitor.
    pub win_width: i32,
    pub win_height: i32,
    /// The compositor's stable identifier of the window.
    pub address: String,
}

/// The outcome of one capture cycle: every window of the workspace that could
/// be captured, and the logical size of the monitor that holds them.
pub struct CaptureResult {
    pub ws_id: i32,
    pub thumbnails: Vec<WindowThumbnail>,
    pub monitor_width: u32,
    pub monitor_height: u32,
}

} // verus!
