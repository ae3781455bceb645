//! Control plane for a long-running background network-session daemon.
//!
//! The daemon supervises a single active session and exposes its status and
//! lifecycle to short-lived control invocations over a local rendezvous
//! endpoint.  This crate holds the verified core: the wire protocol (length
//! framing and the message codec), the supervisor's request handling, and the
//! daemon lifecycle state machine.  Process plumbing (sockets, signals,
//! detachment) lives outside the library and drives these functions.

pub mod codec;
pub mod daemon;
pub mod frame;
pub mod json;
pub mod protocol;
pub mod session;
pub mod sock;
