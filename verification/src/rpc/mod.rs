//! The node's JSON-RPC surface: decoding submitted transactions and answering queries.
pub mod wire;
pub mod decode;
pub mod handlers;
