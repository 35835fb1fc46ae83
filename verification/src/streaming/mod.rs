pub mod hls;
pub mod dash;
pub mod webrtc;
