//! Relay protocol and client session logic for a terminal chat with video.

pub mod bridge;
pub mod bytes;
pub mod chat;
pub mod codec;
pub mod error;
pub mod framing;
pub mod input;
pub mod log;
pub mod message;
pub mod relay;
pub mod session;
pub mod ticker;
pub mod uid;
pub mod video;
pub mod wrap;
