//! Reads into buffers that are leased from a pool.

use crate::body::incoming::Leased;
use crate::error::{self, Error, ErrorKind};
use vstd::prelude::*;

verus! {

/// What a leasing read of at most so many bytes amounts to. A request for zero
/// bytes leaves the size to the pool.
pub open spec fn lease_result(
    result: Result<Option<Leased>, std::io::Error>,
    requested: nat,
) -> Result<Option<Leased>, Error> {
    match result {
        Ok(Some(buffer)) => if buffer.bytes().len() == 0 {
            Err(
                Error {
                    kind: ErrorKind::Internal,
                    context: "managed stream receive returned an empty lease",
                    source: None,
                },
            )
        } else if requested != 0 && buffer.bytes().len() > requested {
            Err(
                Error {
                    kind: ErrorKind::Internal,
                    context: "managed stream receive exceeded its requested range",
                    source: None,
                },
            )
        } else {
            Ok(Some(buffer))
        },
        Ok(None) => Ok(None),
        Err(cause) => Err(error::io_failure(cause)),
    }
}

/// Checks what a leasing read brought.
pub fn checked_lease(result: Result<Option<Leased>, std::io::Error>, requested: usize) -> (checked:
    Result<Option<Leased>, Error>)
    ensures
        checked == lease_result(result, requested as nat),
{
    match result {
        Ok(Some(buffer)) => {
            let length = buffer.as_init().len();
            if length == 0 {
                return Err(
                    Error::new(
                        ErrorKind::Internal,
                        "managed stream receive returned an empty lease",
                    ),
                );
            }
            if requested != 0 && length > requested {
                return Err(
                    Error::new(
                        ErrorKind::Internal,
                        "managed stream receive exceeded its requested range",
                    ),
                );
            }
            Ok(Some(buffer))
        },
        Ok(None) => Ok(None),
        Err(cause) => Err(map_error(cause)),
    }
}

/// The error of a leasing read that failed.
pub fn map_error(cause: std::io::Error) -> (result: Error)
    ensures
        result == error::io_failure(cause),
{
    Error::from_io(cause)
}

} // verus!
