//! A binary framing protocol for talking to a worker process over its
//! standard streams: a versioned, CRC-checked frame codec, the decisions of
//! the stream read protocol, and the control-command helpers built on them.
pub mod bit_operations;
pub mod errors;
pub mod frame_flags;
pub mod frame;
pub mod codec_laws;
pub mod pipe;
pub mod read_laws;
pub mod relay;
pub mod commands;
