//! Formatting of the standard library.

use vstd::prelude::*;

verus! {

/// `core::fmt::Formatter`, where formatted text goes.
#[verifier::external_type_specification]
#[verifier::external_body]
pub struct ExFormatter<'a>(core::fmt::Formatter<'a>);

/// `core::fmt::Error`, the failure of a formatter.
#[verifier::external_type_specification]
#[verifier::external_body]
pub struct ExFormatError(core::fmt::Error);

/// `Formatter::write_str`. Where the text goes and whether it is taken is up to
/// the formatter, so nothing is promised of the result.
#[verifier::external_body]
pub(crate) fn write_text(
    formatter: &mut core::fmt::Formatter<'_>,
    text: &str,
) -> (result: Result<(), core::fmt::Error>) {
    formatter.write_str(text)
}

/// `Formatter::alternate`: whether the caller asked for the form over several
/// lines. That is up to the caller, so nothing is promised of the result.
#[verifier::external_body]
pub(crate) fn is_alternate(formatter: &core::fmt::Formatter<'_>) -> (result: bool) {
    formatter.alternate()
}

} // verus!
