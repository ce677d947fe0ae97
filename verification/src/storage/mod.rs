//! Persistence: a key-value store of bytes and the keys the node writes under.
pub mod store;
