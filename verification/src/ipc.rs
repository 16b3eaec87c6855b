//! The local protocol: its messages, its wire format and the rules a
//! session follows.

pub mod server;
pub mod structs;
pub mod wire;
