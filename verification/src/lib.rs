//! A deterministic test harness for a replicated-editor project: an in-memory
//! network simulator with seeded reordering and duplication, a fake RPC server
//! that models connect/reconnect policy for a single client, an observer that
//! turns change notifications into a consumable event queue, and small text
//! and directory-tree fixtures.

pub mod fixtures;
pub mod network;
pub mod observer;
pub mod rng;
pub mod server;
