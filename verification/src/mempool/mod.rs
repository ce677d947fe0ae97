//! Staging of incoming transactions before sequencing.
pub mod mempool;
