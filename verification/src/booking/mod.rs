//! The theatre booking service that talks to the gateway.

pub mod config;
pub mod error;
pub mod gateway;
pub mod laws;
pub mod migrations;
pub mod models;
pub mod routes;
