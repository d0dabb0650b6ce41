//! Client core for a binary-framed live-stream event protocol: frame
//! splitting and decoding, the handshake and keepalive frames, the decoded
//! event model, and the decision tables of the session and of its timer.

pub mod codec;
pub mod entity;
pub mod frame;
pub mod json;
pub mod lines;
pub mod session;
pub mod timer;
