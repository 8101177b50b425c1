//! Peer-to-peer remote-access bridge: the audio jitter buffer, the audio wire
//! format, stream configuration choice, and the bookkeeping of one WebRTC
//! session, each with its contract.

pub mod audio;
pub mod session;
pub mod signalling;
