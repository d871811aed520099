//! An in-memory todo-list service core.
//!
//! The store keeps todo records in insertion order behind a well-formedness
//! invariant (unique, non-empty ids; `completed` false). The JSON modules
//! parse create requests and render responses byte for byte, and the handler
//! functions tie the two together. Process wiring (sockets, routing) lives
//! outside this crate.

pub mod bytes;
pub mod todo;
pub mod store;
pub mod json_parse;
pub mod json_encode;
pub mod handlers;
