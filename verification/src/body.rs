//! Streaming bodies and payload metadata.

pub mod collect;
pub mod combinator;
pub mod frame;
pub mod incoming;
pub mod laws;
pub mod pipe;
pub mod simple;
pub mod size_hint;
pub mod stream;

use crate::outside::octets;
use bytes::Bytes;
use vstd::prelude::*;

verus! {

/// Whether a body may produce trailing header fields.
///
/// Trailer capability is independent of payload size. Even an exact zero-byte
/// payload can have trailers, so it does not establish end of stream.
#[derive(Clone, Copy, Debug, Hash, PartialEq, Eq, Structural)]
pub enum TrailerHint {
    /// The body promises never to produce a trailers frame.
    Absent,
    /// The body may produce trailers after its data.
    MayHave,
}

impl Default for TrailerHint {
    fn default() -> (result: Self)
        ensures
            result == TrailerHint::MayHave,
    {
        TrailerHint::MayHave
    }
}

/// An owned buffer whose bytes are payload.
pub trait Buffer {
    /// The bytes that the buffer holds. A type of unverified code leaves them
    /// open.
    closed spec fn contents(&self) -> Seq<u8> {
        vstd::pervasive::arbitrary()
    }

    fn as_init(&self) -> (result: &[u8])
        ensures
            result@ == self.contents(),
    ;
}

impl Buffer for Vec<u8> {
    open spec fn contents(&self) -> Seq<u8> {
        self@
    }

    fn as_init(&self) -> (result: &[u8]) {
        self.as_slice()
    }
}

impl Buffer for Bytes {
    open spec fn contents(&self) -> Seq<u8> {
        octets::octets(*self)
    }

    fn as_init(&self) -> (result: &[u8]) {
        octets::as_slice(self)
    }
}

} // verus!
