//! Wire protocols.

pub mod h1;
