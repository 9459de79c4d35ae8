//! The calls into other crates, each behind a contract.
//!
//! Nothing here is proved: every item says which outside function it calls and
//! what is relied on. The rest of the library is verified against these items.

pub mod date;
pub mod fields;
pub mod io;
pub mod memory;
pub mod octets;
pub mod start_line;
pub mod text;
pub mod time;
pub mod wire;
