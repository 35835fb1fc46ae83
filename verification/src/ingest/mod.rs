pub mod rtmp;
pub mod segment_buffer;
pub mod transcoder;
