//! The payment gateway.

pub mod api_laws;
pub mod cli;
pub mod config;
pub mod delivery;
pub mod laws;
pub mod outcome;
pub mod probe;
pub mod records;
pub mod schedule;
pub mod selftest;
pub mod server;
pub mod signature;
pub mod store;
pub mod worker_laws;
