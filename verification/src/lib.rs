//! A minimal eventually-consistent, peer-to-peer replicated key-value store.
//!
//! Nodes learn of each other and replicate data through periodic gossip
//! exchanges of full-state snapshots over an unreliable transport. There is
//! no coordinator. One version counter covers the whole store of a node: a
//! snapshot with a higher version overwrites the keys it holds, any other
//! snapshot is discarded. This is last-writer-wins for the store as a whole,
//! not per key.
//!
//! The crate holds the decisions of a node, each with a contract that Verus
//! proves:
//!
//! - [`PeerRegistry`], the members of the cluster, which only ever grow;
//! - [`Kv`], the versioned store with local writes and the merge of a remote
//!   snapshot;
//! - [`Server`], the engine: the join sequence, the merge of an incoming
//!   message, and the choice of the peer that the next message goes to.
//!
//! What follows from these for the protocol as a whole stands in
//! [`guarantees`].
//!
//! Sockets, timers and the wire encoding belong to the program that drives a
//! [`Server`]. A `Server` is a plain value. A program that shares one between
//! tasks keeps it behind a lock, and each call is then one atomic step of the
//! node.
//!
//! What is taken on trust from the crates `dashmap`, `serde_json` and `rand`
//! stands in [`trusted`].

pub mod gossip;
pub mod guarantees;
pub mod message;
pub mod peer;
pub mod registry;
pub mod snapshot;
pub mod store;
pub mod trusted;

pub use gossip::{
    frame_datagram, receive_buffer, Action, Event, Phase, ReceiveError, SendOutcome, Server,
    DATAGRAM_CAPACITY, JOIN_ATTEMPTS, JOIN_PAUSE_MILLIS, TICK_MILLIS,
};
pub use message::Message;
pub use peer::{Address, Peer};
pub use registry::PeerRegistry;
pub use snapshot::Update;
pub use store::Kv;
