//! The L2 world state.
pub mod byte_order;
pub mod sorted_map;
pub mod state_manager;
