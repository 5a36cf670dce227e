//! A real-time chat gateway core: the wire envelope protocol, the
//! per-connection session state machine, and the hub that owns live
//! session and channel state and fans events out to channel members.

pub mod encode;
pub mod events;
pub mod ext;
pub mod hub;
pub mod models;
pub mod protocol;
pub mod rest;
pub mod session;
