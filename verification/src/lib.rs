//! The manager of a distributed load test.
pub mod configuration;
pub mod goose;
pub mod laws;
pub mod manager;
pub mod model;
pub mod requests;
pub mod stats;
pub mod util;
