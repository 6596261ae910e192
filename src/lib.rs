//! Create / read / delete operations over a single "mission" entity.
//!
//! The library holds the mission records, the predicate selector that scopes
//! a query to one id or to one name, an in-memory mission repository with the
//! store's semantics, and the mapping from repository outcomes to HTTP
//! statuses. The HTTP server and the relational store live outside it.
pub mod mission;
pub mod matcher;
pub mod status;
pub mod store;
pub mod handlers;
pub mod laws;
