//! Concurrency substrate and session-protocol engine of a terminal multiplexer.
//!
//! The crate holds the decisions of the multiplexer as verified, single-owner
//! state machines: the wire framing, the per-connection session loop, the
//! completion bridge between a worker thread and its poller, the two-lane
//! main-thread scheduler and the pollable channel. Threads, sockets and the
//! async runtime stay with the embedding host, which feeds these machines and
//! performs what they ask for.

pub mod codec;
pub mod pollable;
pub mod session;
pub mod bridge;
pub mod spawn;
pub mod terminal;
pub mod winpty;
