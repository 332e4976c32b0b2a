//! An in-memory store of items keyed by integer id, and the request
//! handlers that turn decoded requests into store operations and responses.

pub mod handlers;
pub mod item;
pub mod laws;
pub mod request;
pub mod store;
