//! A first-in-first-out queue kept as a chain of nodes in an index-addressed pool.
//!
//! The queue caches its front value, links the remaining elements through
//! pool slots, and keeps the index of the last node so that both ends are
//! reached in constant time.

pub mod chain;
pub mod laws;
pub mod model;
pub mod node;
pub mod pool;
pub mod queue;
