//! Verified core of a minimal task-management CRUD service.
//!
//! The library models the persisted task table, the five repository
//! operations against it, and the mapping from each operation's outcome to
//! an HTTP status code and response body. The surrounding process (router,
//! connection pool, serialization plumbing) lives outside the library and
//! hands in plain values.

pub mod models;
pub mod store;
pub mod text;
pub mod json;
pub mod handlers;
pub mod laws;
