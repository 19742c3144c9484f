//! A replicated key space maintained by a small cluster of peer replicas.
//!
//! Replicas accept Put/Get/Delete operations from clients and propagate
//! updates to each other asynchronously. Two merge disciplines are provided
//! and contrasted: a last-writer-wins variant that compares bare timestamps
//! (and provably loses updates once deletes are involved), and a causal
//! variant that attaches to every write and delete the set of versions it
//! supersedes, so that applying sync messages is idempotent and insensitive
//! to delivery order.

pub mod actor;
pub mod broken;
pub mod client;
pub mod config;
pub mod fixed;
pub mod laws;
pub mod peer;
pub mod predicates;
pub mod replica;
pub mod store;
pub mod version;
