//! The notification broker: session registry, message kinds and fan-out.

pub mod json;
pub mod message;
pub mod protocol;
pub mod registry;
pub mod server;
