//! Device-management request broker: a verified protocol codec, a dispatch
//! engine that maps typed commands to system capabilities, and the worker
//! state machine that drives one backend connection.
//!
//! The transport (message-queue sockets, signals, process setup) lives in the
//! host program; this library holds everything that decides or computes:
//! decoding the wire envelope, routing a request to exactly one capability,
//! building the typed reply, and encoding it.

pub mod dispatch;
pub mod hal;
pub mod handler;
pub mod protocol;
pub mod realbits;
pub mod text;
pub mod wire;
pub mod worker;
