//! A node-based ordered collection implemented under several ownership
//! disciplines: an exclusive-ownership chain, an arena-allocated chain,
//! a shared read-only chain, a doubly-linked list with collection-owned
//! nodes, an index-based graph, and a manually-managed chain with
//! explicit per-node release. A further module holds the serialized
//! per-operation steps of a mutex-guarded sequence shared across threads.

pub mod arena;
pub mod doubly;
pub mod exclusive;
pub mod graph;
pub mod guarded;
pub mod manual;
pub mod shared;
