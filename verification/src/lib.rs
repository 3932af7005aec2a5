//! Protocol engine of a client for a live-stream barrage (scrolling chat)
//! service: the binary frame codec, the slash-delimited key/value payload
//! parser, the outbound commands and the session's decisions.
//!
//! Everything here computes on plain values. Sockets, timers and the console
//! belong to the program around this library.

pub mod endian;
pub mod frame;
pub mod payload;
pub mod command;
pub mod chat;
pub mod session;
