//! I/O errors of the standard library and of the `karmaio` runtime.

use vstd::prelude::*;

verus! {

/// `std::io::Error`, why an I/O operation failed.
#[verifier::external_type_specification]
#[verifier::external_body]
pub struct ExIoError(std::io::Error);

/// The kinds of `std::io::ErrorKind` that the library tells apart.
#[derive(Clone, Copy, Debug, PartialEq, Eq, Structural)]
pub enum IoKind {
    TimedOut,
    Interrupted,
    InvalidInput,
    InvalidData,
    WriteZero,
    Other,
}

/// The kind of an I/O error.
pub uninterp spec fn kind_of(error: std::io::Error) -> IoKind;

/// Whether an I/O error says that the operation was canceled.
pub uninterp spec fn cancels(error: std::io::Error) -> bool;

/// The text that an I/O error was made with.
pub uninterp spec fn message_of(error: std::io::Error) -> Seq<char>;

/// `std::io::Error::kind`, with every kind that is not told apart as `Other`.
#[verifier::external_body]
pub(crate) fn kind(error: &std::io::Error) -> (result: IoKind)
    ensures
        result == kind_of(*error),
{
    match error.kind() {
        std::io::ErrorKind::TimedOut => IoKind::TimedOut,
        std::io::ErrorKind::Interrupted => IoKind::Interrupted,
        std::io::ErrorKind::InvalidInput => IoKind::InvalidInput,
        std::io::ErrorKind::InvalidData => IoKind::InvalidData,
        std::io::ErrorKind::WriteZero => IoKind::WriteZero,
        _ => IoKind::Other,
    }
}

/// `karmaio::runtime::is_operation_canceled`: whether the error carries the
/// runtime's mark of a canceled operation. The answer depends on the error alone.
#[verifier::external_body]
pub(crate) fn is_canceled(error: &std::io::Error) -> (result: bool)
    ensures
        result == cancels(*error),
{
    karmaio::runtime::is_operation_canceled(error)
}

/// `karmaio::runtime::operation_canceled`: an error that carries the runtime's
/// mark of a canceled operation.
#[verifier::external_body]
pub(crate) fn canceled() -> (result: std::io::Error)
    ensures
        cancels(result),
{
    karmaio::runtime::operation_canceled()
}

/// `std::io::Error::new` with a text for a payload: an error of the kind and with
/// the text, which does not say that the operation was canceled.
#[verifier::external_body]
pub(crate) fn error(kind: IoKind, message: &'static str) -> (result: std::io::Error)
    ensures
        kind_of(result) == kind,
        message_of(result) == message@,
        !cancels(result),
{
    let kind = match kind {
        IoKind::TimedOut => std::io::ErrorKind::TimedOut,
        IoKind::Interrupted => std::io::ErrorKind::Interrupted,
        IoKind::InvalidInput => std::io::ErrorKind::InvalidInput,
        IoKind::InvalidData => std::io::ErrorKind::InvalidData,
        IoKind::WriteZero => std::io::ErrorKind::WriteZero,
        IoKind::Other => std::io::ErrorKind::Other,
    };
    std::io::Error::new(kind, message)
}

/// `std::io::Error::from` on a kind alone: an error of the kind, which does not
/// say that the operation was canceled.
#[verifier::external_body]
pub(crate) fn of_kind(kind: IoKind) -> (result: std::io::Error)
    ensures
        kind_of(result) == kind,
        !cancels(result),
{
    let kind = match kind {
        IoKind::TimedOut => std::io::ErrorKind::TimedOut,
        IoKind::Interrupted => std::io::ErrorKind::Interrupted,
        IoKind::InvalidInput => std::io::ErrorKind::InvalidInput,
        IoKind::InvalidData => std::io::ErrorKind::InvalidData,
        IoKind::WriteZero => std::io::ErrorKind::WriteZero,
        IoKind::Other => std::io::ErrorKind::Other,
    };
    std::io::Error::from(kind)
}

/// An error of the library's own: its kind and its text, and no cancellation.
pub open spec fn is_own(error: std::io::Error, kind: IoKind, message: &'static str) -> bool {
    kind_of(error) == kind && message_of(error) == message@ && !cancels(error)
}

} // verus!
