//! Sending requests over one connection.

pub mod admission;
pub mod builder;
pub mod laws;
pub mod response;
