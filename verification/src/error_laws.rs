//! What holds of the categories of failures.

use crate::error::{self, Error, ErrorKind, Payload, Source};
use crate::outside::io::{self, IoKind};
use crate::proto::h1::decode::DecodeError;
use crate::proto::h1::encode::EncodeError;
use crate::proto::h1::head::HeadError;
use vstd::prelude::*;

verus! {

/// A failure of I/O is a cancellation where the runtime says so, a timeout where it is
/// none and time ran out, and a failure of I/O otherwise; the cause is kept.
pub proof fn io_failures_are_told_apart(
    cause: std::io::Error,
    made: Error,
    converted: Error,
    canceled: bool,
    kind: IoKind,
    class: ErrorKind,
)
    requires
        call_ensures(Error::from_io, (cause,), made),
        call_ensures(<Error as From<std::io::Error>>::from, (cause,), converted),
        call_ensures(error::classify_io, (canceled, kind), class),
    ensures
        made.kind == ErrorKind::Canceled <==> io::cancels(cause),
        made.kind == ErrorKind::Timeout <==> !io::cancels(cause) && io::kind_of(cause)
            == IoKind::TimedOut,
        made.kind == ErrorKind::Io <==> !io::cancels(cause) && io::kind_of(cause)
            != IoKind::TimedOut,
        made.source matches Some(Source::Io(kept)) && *kept == cause,
        converted == made,
        class == ErrorKind::Canceled <==> canceled,
        class == ErrorKind::Timeout <==> !canceled && kind == IoKind::TimedOut,
        class == ErrorKind::Io <==> !canceled && kind != IoKind::TimedOut,
{
}

/// A head of a peer fails as over a limit, as unsupported or as invalid; the cause is
/// kept.
pub proof fn head_failures_are_told_apart(cause: HeadError, made: Error)
    requires
        call_ensures(<Error as From<HeadError>>::from, (cause,), made),
    ensures
        made.kind == ErrorKind::Limit <==> cause is Limit,
        made.kind == ErrorKind::Unsupported <==> cause is UnsupportedVersion
            || cause is UnsupportedTransferCoding,
        made.kind == ErrorKind::InvalidMessage <==> !(cause is Limit)
            && !(cause is UnsupportedVersion) && !(cause is UnsupportedTransferCoding),
        made.source == Some(Source::Head(cause)),
{
}

/// The body of a peer fails as over a limit or as invalid, and a message of one's own
/// as over a limit, as unsupported or as a local mistake; the cause is kept.
pub proof fn framing_failures_are_told_apart(
    received: DecodeError,
    decoding: Error,
    sent: EncodeError,
    encoding: Error,
)
    requires
        call_ensures(<Error as From<DecodeError>>::from, (received,), decoding),
        call_ensures(<Error as From<EncodeError>>::from, (sent,), encoding),
    ensures
        decoding.kind == ErrorKind::Limit <==> received is Limit,
        decoding.kind == ErrorKind::InvalidMessage <==> !(received is Limit),
        decoding.source == Some(Source::Decode(received)),
        encoding.kind == ErrorKind::Limit <==> sent is Limit,
        encoding.kind == ErrorKind::Unsupported <==> sent is Unsupported,
        encoding.kind == ErrorKind::LocalMessage <==> !(sent is Limit) && !(sent is Unsupported),
        encoding.source == Some(Source::Encode(sent)),
{
}

/// An error gives back its category, its context and its cause, and so does each of
/// two that it is split into.
pub proof fn errors_keep_what_they_are_made_of(
    kind: ErrorKind,
    context: &'static str,
    plain: Error,
    payload: Payload,
    carrying: Error,
    cause: std::io::Error,
    failing: Error,
    error: Error,
    halves: (Error, Error),
    class: ErrorKind,
    canceled: bool,
)
    requires
        call_ensures(Error::new, (kind, context), plain),
        call_ensures(Error::with_payload, (kind, context, payload), carrying),
        call_ensures(Error::with_io, (kind, context, cause), failing),
        call_ensures(Error::split, (error,), halves),
        call_ensures(Error::kind, (&error,), class),
        call_ensures(Error::is_canceled, (&error,), canceled),
    ensures
        plain.kind == kind && plain.context == context && plain.source is None,
        carrying.kind == kind && carrying.context == context && (carrying.source matches Some(
            Source::Foreign(kept),
        ) && *kept == payload),
        failing.kind == kind && failing.context == context && (failing.source matches Some(
            Source::Io(kept),
        ) && *kept == cause),
        halves.0 == error && halves.1 == error,
        class == error.kind,
        canceled <==> error.kind == ErrorKind::Canceled,
{
}

/// What is shown of an error is its context and its category, and nothing of its
/// cause: errors that differ in their causes alone are shown alike.
pub proof fn causes_are_not_shown(
    left: Error,
    right: Error,
    first: String,
    second: String,
    alternate: bool,
    third: String,
    fourth: String,
)
    requires
        call_ensures(Error::display_text, (&left,), first),
        call_ensures(Error::display_text, (&right,), second),
        call_ensures(Error::debug_text, (&left, alternate), third),
        call_ensures(Error::debug_text, (&right, alternate), fourth),
        left.kind == right.kind,
        left.context == right.context,
    ensures
        first@ == second@,
        first@.subrange(0, left.context@.len() as int) == left.context@,
        (left.source is Some) == (right.source is Some) ==> third@ == fourth@,
{
}

/// An error shows its cause where it has one.
pub proof fn causes_can_be_looked_at(error: Error, cause: Option<&Source>)
    requires
        call_ensures(Error::source, (&error,), cause),
    ensures
        cause is Some <==> error.source is Some,
        cause matches Some(kept) ==> error.source == Some(*kept),
{
}

/// What is told of an error says whether it has a cause.
pub proof fn causes_are_told_of(error: Error, other: Error, alternate: bool, text: String, twin: String)
    requires
        call_ensures(Error::debug_text, (&error, alternate), text),
        call_ensures(Error::debug_text, (&other, alternate), twin),
        error.kind == other.kind,
        error.context == other.context,
        error.source is Some,
        other.source is None,
    ensures
        text@ != twin@,
        twin@.len() == text@.len() + 1,
{
    reveal_strlit("true");
    reveal_strlit("false");
}

/// Each category has a description and a name of its own.
pub proof fn categories_are_told_apart(
    left: ErrorKind,
    right: ErrorKind,
    first: &'static str,
    second: &'static str,
    name: &'static str,
    other: &'static str,
)
    requires
        call_ensures(ErrorKind::description, (left,), first),
        call_ensures(ErrorKind::description, (right,), second),
        call_ensures(ErrorKind::name, (left,), name),
        call_ensures(ErrorKind::name, (right,), other),
        left != right,
    ensures
        first@ != second@,
        name@ != other@,
{
    told_apart(left, right);
}

#[verifier::rlimit(40)]
proof fn told_apart(left: ErrorKind, right: ErrorKind)
    requires
        left != right,
    ensures
        left.described() != right.described(),
        left.named() != right.named(),
{
    reveal_strlit("I/O failure");
    reveal_strlit("TLS failure");
    reveal_strlit("invalid peer message");
    reveal_strlit("invalid local message");
    reveal_strlit("body failure");
    reveal_strlit("service failure");
    reveal_strlit("configured limit exceeded");
    reveal_strlit("deadline exceeded");
    reveal_strlit("unsupported HTTP behavior");
    reveal_strlit("connection closed");
    reveal_strlit("operation canceled");
    reveal_strlit("upgrade failure");
    reveal_strlit("internal invariant failure");
    reveal_strlit("Io");
    reveal_strlit("Tls");
    reveal_strlit("InvalidMessage");
    reveal_strlit("LocalMessage");
    reveal_strlit("Body");
    reveal_strlit("Service");
    reveal_strlit("Limit");
    reveal_strlit("Timeout");
    reveal_strlit("Unsupported");
    reveal_strlit("Closed");
    reveal_strlit("Canceled");
    reveal_strlit("Upgrade");
    reveal_strlit("Internal");
    assert(left.described().len() != right.described().len() || left.described()[0]
        != right.described()[0] || left.described()[8] != right.described()[8]);
    assert(left.named().len() != right.named().len() || left.named()[0] != right.named()[0]
        || left.named()[2] != right.named()[2]);
}

} // verus!
