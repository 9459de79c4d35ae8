//! The room that a vector has set aside.

use std::collections::TryReserveError;
use vstd::prelude::*;

verus! {

/// `Vec::capacity`: for how many bytes there is room, which is up to the
/// allocator.
#[verifier::external_body]
pub(crate) fn capacity(bytes: &Vec<u8>) -> (result: usize)
    ensures
        result >= bytes@.len(),
{
    bytes.capacity()
}

/// `Vec::try_reserve_exact`: asks for room, which the machine may refuse. The
/// bytes stay as they are.
#[verifier::external_body]
pub(crate) fn reserve_exact(bytes: &mut Vec<u8>, additional: usize) -> (result: Result<
    (),
    TryReserveError,
>)
    ensures
        final(bytes)@ == old(bytes)@,
{
    bytes.try_reserve_exact(additional)
}

} // verus!
