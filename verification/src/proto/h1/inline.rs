//! Small owned buffers.

use crate::body::Buffer;
use vstd::prelude::*;

verus! {

/// A small owned buffer whose initialized prefix is available for I/O.
#[derive(Debug, PartialEq, Eq)]
pub struct InlineBuf<const N: usize> {
    bytes: [u8; N],
    len: usize,
}

impl<const N: usize> InlineBuf<N> {
    /// The initialized prefix lies within the buffer.
    #[verifier::type_invariant]
    spec fn bounded(self) -> bool {
        self.len <= N
    }

    pub fn empty() -> (result: Self)
        ensures
            result.contents() == Seq::<u8>::empty(),
    {
        let result = InlineBuf { bytes: [0u8; N], len: 0 };
        assert(result.contents() =~= Seq::<u8>::empty());
        result
    }

    pub fn from_parts(bytes: [u8; N], len: usize) -> (result: Self)
        requires
            len <= N,
        ensures
            result.contents() == bytes@.take(len as int),
    {
        InlineBuf { bytes, len }
    }
}

impl<const N: usize> Buffer for InlineBuf<N> {
    closed spec fn contents(&self) -> Seq<u8> {
        self.bytes@.take(self.len as int)
    }

    fn as_init(&self) -> (result: &[u8]) {
        proof {
            use_type_invariant(self);
        }
        let all = vstd::array::array_as_slice(&self.bytes);
        let result = &all[0..self.len];
        assert(result@ =~= self.bytes@.take(self.len as int));
        result
    }
}

} // verus!
