//! Watches a node's pool of pending transactions and republishes each new
//! transaction once to its subscribers.
//!
//! The crate holds the decisions of the watcher: the store that remembers
//! which transactions were already surfaced, the computation of a
//! transaction's identifier, and the steps of one polling cycle. Requests to
//! the node and the timing of the cycles are left to the caller.

pub mod cache;
pub mod channel;
pub mod errors;
pub mod hash;
pub mod mempoolitem;
pub mod responses;
pub mod strmap;
pub mod terra;
pub mod tx;
pub mod watcher;

pub use crate::mempoolitem::MempoolItem;
pub use crate::watcher::Watcher;
