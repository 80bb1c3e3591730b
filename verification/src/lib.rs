//! A replicated key-value store: the map every node serves, the messages
//! nodes and clients exchange, and the Raft rules each node follows.
pub mod clock;
pub mod protocol;
pub mod store;
pub mod raft;
pub mod server;
