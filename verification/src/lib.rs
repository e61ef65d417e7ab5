//! A single node of a message-passing cluster driven by an external
//! harness.  The crate defines the wire envelope, the closed payload
//! protocol, the node's mutable state, and the dispatch state machine
//! that turns one inbound message into at most one reply while the
//! node's state evolves.  The surrounding process owns the byte
//! streams; this crate owns the protocol logic.

pub mod ident;
pub mod laws;
pub mod node;
pub mod protocol;
