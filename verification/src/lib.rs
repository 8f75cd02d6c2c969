//! Core of an audio telemetry sensor: a real-time capture callback hands raw
//! interleaved samples to a frame builder, frames cross a bounded queue to a
//! publisher, and the publisher serializes each frame into a binary envelope
//! and drives a connection state machine with exponential backoff and a
//! bounded backlog.

pub mod codec;
pub mod config;
pub mod frame;
pub mod publisher;
pub mod queue;
pub mod runner;

pub use codec::DecodeError;
pub use codec::SerializationError;
pub use codec::deserialize;
pub use codec::serialize;
pub use config::get_topics;
pub use frame::AudioFrame;
pub use frame::RawType;
pub use frame::StreamError;
pub use frame::build_frame;
pub use publisher::ConnState;
pub use publisher::Publisher;
pub use queue::SampleQueue;
pub use runner::MutableRunner;
pub use runner::Runner;
