pub mod device;
pub mod jitter;
pub mod pipeline;

pub use jitter::{BufferState, JitterBuffer};
pub use pipeline::AudioPacket;
