//! Readiness-gated acceptance of connections on a local stream socket.
//!
//! The accept protocol is a state machine: the caller feeds it what the
//! readiness source and the socket reported, and it answers with the next
//! thing to do. The socket, the reactor and the scheduler stay with the caller.

pub mod accept;
pub mod incoming;
pub mod trace;
