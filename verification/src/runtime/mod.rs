//! Deterministic execution of transactions against the state.
pub mod runtime;
