//! Dates of the `httpdate` crate.

use crate::outside::fields;
use std::time::{Duration, SystemTime};
use vstd::prelude::*;

verus! {

/// The second that dates can no longer be written for.
pub const END_OF_DATES: u64 = 253402300800;

/// The date text of a second since the start of the Unix epoch.
pub uninterp spec fn date_text(second: u64) -> Seq<u8>;

/// `httpdate::fmt_http_date`: the date of a second, in characters that a field
/// value can hold. The call panics on seconds for which no date can be written.
#[verifier::external_body]
pub(crate) fn http_date(second: u64) -> (result: Vec<u8>)
    requires
        second < END_OF_DATES,
    ensures
        result@ == date_text(second),
        fields::is_value(result@),
{
    httpdate::fmt_http_date(SystemTime::UNIX_EPOCH + Duration::from_secs(second)).into_bytes()
}

} // verus!
