//! Verified core of a hierarchical configuration directory.
//!
//! The library models the directory's JSON documents, the key scheme that
//! places every entity under its parent's prefix, the strict (closed) entity
//! schemas, the server-side derivation rules, and the decisions of the CRUD
//! protocol against a key-value backend. The surrounding process (HTTP
//! routing, the backend connection) lives outside the library and hands it
//! plain values.

pub mod error;
pub mod hub;
pub mod json;
pub mod realm;
pub mod routing_chain;
pub mod service;
pub mod store;
pub mod subdomain;
pub mod virtual_host;
pub mod zone;
