//! An in-memory record store for CRUD services: todos keyed by a counter,
//! users keyed by a random token, and the request handling around them.
pub mod table;
pub mod models;
pub mod storage;
pub mod laws;
pub mod users;
pub mod handlers;
