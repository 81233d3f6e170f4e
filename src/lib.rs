//! An in-memory collection of user records with create, read, update and
//! delete operations.
pub mod model;
pub mod store;
pub mod handlers;
pub mod laws;
