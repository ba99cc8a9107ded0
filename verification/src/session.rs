//! Session: handshake, pairing and approval, capability negotiation, keepalive, reconnect.
pub mod api;
pub mod course_laws;
pub mod effect;
pub mod laws;
pub mod link;
pub mod negotiate;
pub mod peer;
pub mod queue;
pub mod reconnect;
pub mod request_laws;
pub mod state;
pub mod stream_laws;
