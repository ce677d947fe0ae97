//! Block production and batching.
pub mod sequencer;
