//! HTTP/1 framing and exchange rules.

pub mod bridge;
pub mod bridge_laws;
pub mod chunk_laws;
pub mod client;
pub mod client_laws;
pub mod codec_laws;
pub mod config;
pub mod config_laws;
pub mod decode;
pub mod decode_laws;
pub mod encode;
pub mod encode_laws;
pub mod exchange;
pub mod exchange_laws;
pub mod framing_laws;
pub mod grammar_laws;
pub mod head;
pub mod head_laws;
pub mod header_case;
pub mod inline;
pub mod meaning_laws;
pub mod scan;
pub mod server;
pub mod server_laws;
pub mod syntax;
pub mod text_laws;
pub mod validate;
pub mod values;

use vstd::prelude::*;

verus! {

/// How the end of a body is found.
#[derive(Clone, Copy, Debug, PartialEq, Eq, Structural)]
pub enum BodyMode {
    Empty,
    Fixed(u64),
    Chunked,
    UntilEof,
}

/// Whether the connection may carry another exchange.
#[derive(Clone, Copy, Debug, PartialEq, Eq, Structural)]
pub enum Persistence {
    Reusable,
    Close,
}

/// What the connection turns into after the exchange.
#[derive(Clone, Copy, Debug, PartialEq, Eq, Structural)]
pub enum UpgradeKind {
    Protocol,
    Tunnel,
}

/// The shape of a request target.
#[derive(Clone, Copy, Debug, PartialEq, Eq, Structural)]
pub enum TargetForm {
    Origin,
    Absolute,
    Authority,
    Asterisk,
}

/// Whether a client waits for permission to send its body.
#[derive(Clone, Copy, Debug, PartialEq, Eq, Structural)]
pub enum Expectation {
    Absent,
    Continue,
}

} // verus!
