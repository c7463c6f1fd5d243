//! Core of a live-video broadcast backend: the publish/subscribe bucket map,
//! the per-connection session state machine, paid boost messages, the stream
//! lifecycle monitor and the transcoding plan.

pub mod text;
pub mod types;
pub mod config;
pub mod multiplexer;
pub mod session;
pub mod boost;
pub mod monitor;
pub mod lifecycle;
pub mod probe;
pub mod encoder;
