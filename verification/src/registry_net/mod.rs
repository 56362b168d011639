//! Reference registry service: server decisions, client errors, lookup cache.
pub mod cache;
pub mod client;
pub mod server;
