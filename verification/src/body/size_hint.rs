//! Bounds on the payload that a body still has to produce.

use crate::error::{Error, ErrorKind};
use vstd::prelude::*;

verus! {

/// Bounds on the number of payload bytes still to be produced.
///
/// Bounds exclude trailers and wire framing. Equal bounds are an exact-length
/// promise, enforced by HTTP execution. Producers reduce the bounds when
/// yielding data, not when the data is recycled. These bounds do not establish
/// whether a body has reached its terminal state.
#[derive(Clone, Copy, Debug, Hash, PartialEq, Eq, Structural)]
pub struct SizeHint {
    lower: u64,
    upper: Option<u64>,
}

impl SizeHint {
    /// The bounds are in order.
    #[verifier::type_invariant]
    spec fn ordered(self) -> bool {
        self.upper matches Some(upper) ==> self.lower <= upper
    }

    pub closed spec fn low(self) -> u64 {
        self.lower
    }

    pub closed spec fn high(self) -> Option<u64> {
        self.upper
    }

    /// The length that both bounds agree on.
    pub open spec fn agreed(self) -> Option<u64> {
        if self.high() == Some(self.low()) {
            Some(self.low())
        } else {
            None
        }
    }

    /// The bounds of a payload of exactly this length.
    pub closed spec fn exactly(bytes: u64) -> SizeHint {
        SizeHint { lower: bytes, upper: Some(bytes) }
    }

    /// The bounds of a payload of an exact length are that length.
    pub proof fn exactly_agrees(bytes: u64)
        ensures
            SizeHint::exactly(bytes).low() == bytes,
            SizeHint::exactly(bytes).high() == Some(bytes),
    {
    }

    /// Creates an unknown size: zero lower bound and no upper bound.
    pub fn new() -> (result: Self)
        ensures
            result.low() == 0,
            result.high() is None,
    {
        SizeHint { lower: 0, upper: None }
    }

    /// Creates an exact remaining-payload promise.
    pub fn with_exact(bytes: u64) -> (result: Self)
        ensures
            result == SizeHint::exactly(bytes),
            result.low() == bytes,
            result.high() == Some(bytes),
    {
        SizeHint { lower: bytes, upper: Some(bytes) }
    }

    /// Creates checked bounds on remaining payload bytes, unless `upper` is less
    /// than `lower`.
    pub fn with_bounds(lower: u64, upper: Option<u64>) -> (result: Result<Self, Error>)
        ensures
            result is Ok <==> (upper matches Some(upper) ==> lower <= upper),
            result matches Ok(hint) ==> hint.low() == lower && hint.high() == upper,
            result matches Err(error) ==> error == (Error {
                kind: ErrorKind::LocalMessage,
                context: "body size upper bound is below its lower bound",
                source: None,
            }),
    {
        if let Some(bound) = upper {
            if bound < lower {
                return Err(
                    Error::new(
                        ErrorKind::LocalMessage,
                        "body size upper bound is below its lower bound",
                    ),
                );
            }
        }
        Ok(SizeHint { lower, upper })
    }

    /// Returns the remaining-payload lower bound.
    pub fn lower(&self) -> (result: u64)
        ensures
            result == self.low(),
            self.high() matches Some(upper) ==> result <= upper,
    {
        proof {
            use_type_invariant(self);
        }
        self.lower
    }

    /// Returns the remaining-payload upper bound, if known.
    pub fn upper(&self) -> (result: Option<u64>)
        ensures
            result == self.high(),
            result matches Some(upper) ==> self.low() <= upper,
    {
        proof {
            use_type_invariant(self);
        }
        self.upper
    }

    /// Returns an exact payload length when both bounds agree.
    pub fn exact(&self) -> (result: Option<u64>)
        ensures
            result == self.agreed(),
    {
        match self.upper {
            Some(upper) => if upper == self.lower {
                Some(upper)
            } else {
                None
            },
            None => None,
        }
    }
}

impl Default for SizeHint {
    fn default() -> (result: Self)
        ensures
            result.low() == 0,
            result.high() is None,
    {
        SizeHint::new()
    }
}

} // verus!
