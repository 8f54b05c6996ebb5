//! A gateway core that presents several payment-channel nodes as one.
//!
//! The library decides and computes; the caller performs the remote calls.
//! Each operation of the [`cluster::Cluster`] is split into a decision that
//! names the node (or nodes) to ask and what to ask them, and a completion
//! that takes what the nodes answered, normalises it, fills the cache and
//! returns the result.
pub mod encoding;
pub mod cache;
pub mod lnd;
pub mod cluster;
pub mod api;
