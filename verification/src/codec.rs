//! Buffers that frames are serialized into and read from.

pub mod frame_reader;
pub mod join_continuation;
pub mod queued_write;
pub mod write_buffer;
