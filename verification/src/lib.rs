//! A todo service, cut at the store: which statement each request sends to
//! the relational store, and which HTTP response each outcome of that
//! statement earns.
//!
//! The service keeps no state of its own. A caller decodes a request, asks
//! [`service::Request::statement`] what to send, sends it, and hands what the
//! store gave back to the function in [`service`] that is named after the
//! operation. [`table`] fixes what the statements mean for the `todos` table
//! and holds a table in memory that behaves so; [`laws`] proves what follows
//! for every run of statements.
pub mod laws;
pub mod response;
pub mod service;
pub mod statement;
pub mod table;
pub mod todo;
