//! Clutch: the verified core of an optimistic rollup node.
pub mod codec;
pub mod outside;
pub mod types;
pub mod state;
pub mod storage;
pub mod mempool;
pub mod runtime;
pub mod rpc;
pub mod sequencer;
pub mod metrics;
pub mod genesis;
