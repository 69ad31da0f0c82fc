//! Read-oriented pagination core for a graph API server.
//!
//! The crate provides the cursor codec, the connection slicer, the batched
//! per-request loader, the lazy entity view, and the repository query shapes
//! that back a schema-typed query interface with cursor-based pagination.

pub mod cursor;
pub mod errors;
pub mod lazy;
pub mod loader;
pub mod models;
pub mod nodes;
pub mod query;
pub mod relay;
pub mod repo;
