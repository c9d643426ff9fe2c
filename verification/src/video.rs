//! Plain data the service passes around: video frames and the output size.

use vstd::prelude::*;

verus! {

/// A received video frame.
pub struct ReceivedVideoFrame {
    /// The frame's bytes.
    pub image_buffer: Vec<u8>,
    /// When the frame was captured, in microseconds.
    pub timestamp: i64,
}

/// The size of the rendered output.
pub struct AppConfig {
    /// Width in pixels.
    pub width: u32,
    /// Height in pixels.
    pub height: u32,
}

} // verus!
