//! Peer session and document-synchronization library.
//!
//! Peers discover each other over a peer-to-peer transport, authenticate
//! each other with a shared 32-byte passphrase, and keep a shared
//! CRDT document converged by exchanging length-prefixed sync frames.
//! The transport itself (sockets, streams, the event loop) lives outside
//! this crate; everything that decides or computes is verified here.

pub mod automerge_doc;
pub mod automerge_service;
pub mod connection_service;
pub mod framing;
pub mod identity;
pub mod node_service;
pub mod peer_message;
pub mod text;
pub mod wire;
