//! Settings of connection drivers.

pub mod config;
