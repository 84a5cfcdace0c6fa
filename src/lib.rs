//! A small create/read/update/delete service for ice-cream records.
//!
//! The library holds everything the service decides: how a raw request is
//! read, which route it takes, which SQL statement a handler asks for, and
//! which response the statement's outcome becomes. Sockets and the database
//! connection stay with the caller.

pub mod model;
pub mod request;
pub mod handlers;
pub mod store;

