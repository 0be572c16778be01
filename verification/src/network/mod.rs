//! Frames, the buffers of a duplex command stream, and the decisions of a
//! connection server.

pub mod buffer;
pub mod compress;
pub mod frame;
pub mod server;
pub mod stream;

pub use crate::network::stream::RemotingStream;
