//! Recording a session to a fragmented MP4 file.

pub mod annexb;
pub mod boxes;
pub mod control;
pub mod mp4;
pub mod mp4_bytes;
pub mod mp4_history;
pub mod mp4_laws;
pub mod muxer;
pub mod ogg;
pub mod ogg_laws;
pub mod recorder_laws;
pub mod sps;
