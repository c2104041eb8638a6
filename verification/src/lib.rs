//! A download pipeline for EVM chains: blocks are fetched from a node, kept in the
//! pipeline's own form, and broadcast to the tasks that process them.
pub mod blocks;
pub mod channel;
pub mod split_read;
pub mod streaming;
pub mod sync;
