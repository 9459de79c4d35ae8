//! HTTP/1 message framing, exchange and connection logic.
//!
//! Every decision the protocol asks for is made here on bytes and plain values:
//! where a head ends, how a body is framed, which exchange may be followed by
//! another one. Sockets, timers and tasks stay outside.

pub mod ascii;
pub mod body;
pub mod client;
pub mod connection;
pub mod engine;
pub mod error;
pub mod error_laws;
pub mod future;
pub mod io;
pub mod message;
pub mod outside;
pub mod proto;
