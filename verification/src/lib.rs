//! A small question board with a real-time notification broker.
//!
//! The broker keeps a registry of live connections and fans every event out to
//! all of them. The registry, the broker and the wire format of an event are
//! verified against contracts stated over mathematical models.

pub mod errors;
pub mod models;
pub mod routes;
pub mod websocket;
