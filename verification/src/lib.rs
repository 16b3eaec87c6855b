//! Verified core of a local rich-presence gateway.
//!
//! Native applications publish activity over a length-prefixed binary
//! protocol on a local socket; the gateway normalises what they send and
//! relays it to every subscriber of a text-message stream. This crate holds
//! the parts that decide: the frame codec, the per-session state machine,
//! the activity normaliser and the relay hub. Sockets, tasks and JSON text
//! are the business of the program built around it.

pub mod bridge;
pub mod decimal;
pub mod ipc;
pub mod json;
pub mod server;
pub mod structs;
