//! Public error categories for HTTP and connection operations.

use crate::outside::io::{self, IoKind};
use crate::outside::text::{is_alternate, write_text};
use crate::proto::h1::decode::DecodeError;
use crate::proto::h1::encode::EncodeError;
use crate::proto::h1::head::HeadError;
use std::rc::Rc;
use vstd::prelude::*;
use vstd::string::StringExecFns;

verus! {

/// A stable, high-level category for an operation failure.
///
/// More categories may be added in future releases. Callers should retain a
/// fallback arm when matching this enum.
#[derive(Clone, Copy, Debug, Hash, PartialEq, Eq, Structural)]
#[non_exhaustive]
pub enum ErrorKind {
    /// A transport or operating-system I/O operation failed.
    Io,
    /// TLS configuration, authentication, or handshake failed.
    Tls,
    /// A peer sent an invalid or ambiguously framed HTTP message.
    InvalidMessage,
    /// A locally constructed HTTP message cannot be encoded safely.
    LocalMessage,
    /// Producing or consuming an HTTP body failed.
    Body,
    /// An application service failed to produce a response.
    Service,
    /// A configured size, count, or work limit was exceeded.
    Limit,
    /// A configured elapsed-time limit was exceeded.
    Timeout,
    /// The requested protocol behavior is not supported.
    Unsupported,
    /// The connection closed before the requested operation completed.
    Closed,
    /// The operation was canceled by its owner or shutdown policy, which is a
    /// normal end and no failure of a peer or of I/O.
    Canceled,
    /// A protocol upgrade failed before the transport was handed over.
    Upgrade,
    /// An internal invariant was found violated.
    Internal,
}

impl ErrorKind {
    pub open spec fn described(self) -> Seq<char> {
        match self {
            ErrorKind::Io => "I/O failure"@,
            ErrorKind::Tls => "TLS failure"@,
            ErrorKind::InvalidMessage => "invalid peer message"@,
            ErrorKind::LocalMessage => "invalid local message"@,
            ErrorKind::Body => "body failure"@,
            ErrorKind::Service => "service failure"@,
            ErrorKind::Limit => "configured limit exceeded"@,
            ErrorKind::Timeout => "deadline exceeded"@,
            ErrorKind::Unsupported => "unsupported HTTP behavior"@,
            ErrorKind::Closed => "connection closed"@,
            ErrorKind::Canceled => "operation canceled"@,
            ErrorKind::Upgrade => "upgrade failure"@,
            ErrorKind::Internal => "internal invariant failure"@,
        }
    }

    pub open spec fn named(self) -> Seq<char> {
        match self {
            ErrorKind::Io => "Io"@,
            ErrorKind::Tls => "Tls"@,
            ErrorKind::InvalidMessage => "InvalidMessage"@,
            ErrorKind::LocalMessage => "LocalMessage"@,
            ErrorKind::Body => "Body"@,
            ErrorKind::Service => "Service"@,
            ErrorKind::Limit => "Limit"@,
            ErrorKind::Timeout => "Timeout"@,
            ErrorKind::Unsupported => "Unsupported"@,
            ErrorKind::Closed => "Closed"@,
            ErrorKind::Canceled => "Canceled"@,
            ErrorKind::Upgrade => "Upgrade"@,
            ErrorKind::Internal => "Internal"@,
        }
    }

    /// The category in words.
    pub fn description(self) -> (result: &'static str)
        ensures
            result@ == self.described(),
    {
        match self {
            ErrorKind::Io => "I/O failure",
            ErrorKind::Tls => "TLS failure",
            ErrorKind::InvalidMessage => "invalid peer message",
            ErrorKind::LocalMessage => "invalid local message",
            ErrorKind::Body => "body failure",
            ErrorKind::Service => "service failure",
            ErrorKind::Limit => "configured limit exceeded",
            ErrorKind::Timeout => "deadline exceeded",
            ErrorKind::Unsupported => "unsupported HTTP behavior",
            ErrorKind::Closed => "connection closed",
            ErrorKind::Canceled => "operation canceled",
            ErrorKind::Upgrade => "upgrade failure",
            ErrorKind::Internal => "internal invariant failure",
        }
    }

    /// The name of the category.
    pub fn name(self) -> (result: &'static str)
        ensures
            result@ == self.named(),
    {
        match self {
            ErrorKind::Io => "Io",
            ErrorKind::Tls => "Tls",
            ErrorKind::InvalidMessage => "InvalidMessage",
            ErrorKind::LocalMessage => "LocalMessage",
            ErrorKind::Body => "Body",
            ErrorKind::Service => "Service",
            ErrorKind::Limit => "Limit",
            ErrorKind::Timeout => "Timeout",
            ErrorKind::Unsupported => "Unsupported",
            ErrorKind::Closed => "Closed",
            ErrorKind::Canceled => "Canceled",
            ErrorKind::Upgrade => "Upgrade",
            ErrorKind::Internal => "Internal",
        }
    }
}

/// A failure of an application, told in its own words.
pub trait Foreign {
    fn text(&self) -> String;
}

/// A failure that an application brought in.
pub struct Payload {
    pub inner: Box<dyn Foreign>,
}

/// What an error was caused by.
pub enum Source {
    Head(HeadError),
    Decode(DecodeError),
    Encode(EncodeError),
    Io(Rc<std::io::Error>),
    Foreign(Rc<Payload>),
}

/// An error of an HTTP or connection operation.
///
/// It has a stable [`ErrorKind`] and may keep what caused it. Its formatted
/// forms hold only the library's own text: the cause is looked at explicitly,
/// through [`Error::source`], where its details may be shown.
pub struct Error {
    pub kind: ErrorKind,
    pub context: &'static str,
    pub source: Option<Source>,
}

/// The category of an I/O failure.
pub open spec fn io_kind(canceled: bool, kind: IoKind) -> ErrorKind {
    if canceled {
        ErrorKind::Canceled
    } else if kind == IoKind::TimedOut {
        ErrorKind::Timeout
    } else {
        ErrorKind::Io
    }
}

/// The category of an I/O failure: a cancellation comes before a timeout.
pub fn classify_io(canceled: bool, kind: IoKind) -> (result: ErrorKind)
    ensures
        result == io_kind(canceled, kind),
{
    if canceled {
        ErrorKind::Canceled
    } else {
        match kind {
            IoKind::TimedOut => ErrorKind::Timeout,
            _ => ErrorKind::Io,
        }
    }
}

pub open spec fn head_kind(error: HeadError) -> ErrorKind {
    match error {
        HeadError::Limit(_) => ErrorKind::Limit,
        HeadError::UnsupportedVersion | HeadError::UnsupportedTransferCoding => {
            ErrorKind::Unsupported
        },
        _ => ErrorKind::InvalidMessage,
    }
}

pub open spec fn decode_kind(error: DecodeError) -> ErrorKind {
    match error {
        DecodeError::Limit(_) => ErrorKind::Limit,
        _ => ErrorKind::InvalidMessage,
    }
}

pub open spec fn encode_kind(error: EncodeError) -> ErrorKind {
    match error {
        EncodeError::Limit => ErrorKind::Limit,
        EncodeError::Unsupported => ErrorKind::Unsupported,
        _ => ErrorKind::LocalMessage,
    }
}

/// The error that stands for this failure.
pub open spec fn head_failure(error: HeadError) -> Error {
    Error {
        kind: head_kind(error),
        context: "received HTTP head failed validation",
        source: Some(Source::Head(error)),
    }
}

/// The error that stands for this failure.
pub open spec fn decode_failure(error: DecodeError) -> Error {
    Error {
        kind: decode_kind(error),
        context: "received body framing failed",
        source: Some(Source::Decode(error)),
    }
}

/// The error that stands for this failure.
pub open spec fn encode_failure(error: EncodeError) -> Error {
    Error {
        kind: encode_kind(error),
        context: "outgoing HTTP message cannot be encoded safely",
        source: Some(Source::Encode(error)),
    }
}

/// The error that stands for an I/O failure.
pub open spec fn io_failure(source: std::io::Error) -> Error {
    Error {
        kind: io_kind(io::cancels(source), io::kind_of(source)),
        context: "HTTP I/O operation failed",
        source: Some(Source::Io(Rc::new(source))),
    }
}

impl Error {
    pub fn new(kind: ErrorKind, context: &'static str) -> (result: Self)
        ensures
            result == (Error { kind, context, source: None }),
    {
        Error { kind, context, source: None }
    }

    /// An error that keeps the failure of an application.
    pub fn with_source(kind: ErrorKind, context: &'static str, source: Box<dyn Foreign>) -> (result:
        Self)
        ensures
            result == (Error {
                kind,
                context,
                source: Some(Source::Foreign(Rc::new(Payload { inner: source }))),
            }),
    {
        Error { kind, context, source: Some(Source::Foreign(Rc::new(Payload { inner: source }))) }
    }

    /// An error that keeps the failure of an application, as it was brought in.
    pub fn with_payload(kind: ErrorKind, context: &'static str, payload: Payload) -> (result: Self)
        ensures
            result == (Error { kind, context, source: Some(Source::Foreign(Rc::new(payload))) }),
    {
        Error { kind, context, source: Some(Source::Foreign(Rc::new(payload))) }
    }

    /// An error that keeps an I/O failure.
    pub fn with_io(kind: ErrorKind, context: &'static str, source: std::io::Error) -> (result: Self)
        ensures
            result == (Error { kind, context, source: Some(Source::Io(Rc::new(source))) }),
    {
        Error { kind, context, source: Some(Source::Io(Rc::new(source))) }
    }

    /// Two errors of one kind, context and cause, for a body and its driver that
    /// both report it.
    pub fn split(self) -> (result: (Self, Self))
        ensures
            result.0 == self,
            result.1 == self,
    {
        let shared = match &self.source {
            None => None,
            Some(Source::Head(error)) => Some(Source::Head(*error)),
            Some(Source::Decode(error)) => Some(Source::Decode(*error)),
            Some(Source::Encode(error)) => Some(Source::Encode(*error)),
            Some(Source::Io(error)) => Some(Source::Io(Rc::clone(error))),
            Some(Source::Foreign(payload)) => Some(Source::Foreign(Rc::clone(payload))),
        };
        let second = Error { kind: self.kind, context: self.context, source: shared };
        (self, second)
    }

    pub fn from_io(source: std::io::Error) -> (result: Self)
        ensures
            result == io_failure(source),
    {
        let kind = classify_io(io::is_canceled(&source), io::kind(&source));
        Error::with_io(kind, "HTTP I/O operation failed", source)
    }

    /// Returns the high-level category of this error.
    pub fn kind(&self) -> (result: ErrorKind)
        ensures
            result == self.kind,
    {
        self.kind
    }

    /// Returns `true` when the operation ended because it was canceled.
    pub fn is_canceled(&self) -> (result: bool)
        ensures
            result == (self.kind == ErrorKind::Canceled),
    {
        self.kind == ErrorKind::Canceled
    }

    /// Returns what the error was caused by.
    pub fn source(&self) -> (result: Option<&Source>)
        ensures
            match result {
                Some(source) => self.source == Some(*source),
                None => self.source is None,
            },
    {
        self.source.as_ref()
    }

    /// The text that stands for the error: its context and its category.
    pub open spec fn shown(&self) -> Seq<char> {
        self.context@ + ": "@ + self.kind.described()
    }

    /// The text that stands for the error in diagnostics, on one line or over
    /// several.
    pub open spec fn shown_in_full(&self, alternate: bool) -> Seq<char> {
        let has_source = if self.source is Some {
            "true"@
        } else {
            "false"@
        };
        if alternate {
            "Error {\n    kind: "@ + self.kind.named() + ",\n    context: \""@ + self.context@
                + "\",\n    has_source: "@ + has_source + ",\n    ..\n}"@
        } else {
            "Error { kind: "@ + self.kind.named() + ", context: \""@ + self.context@
                + "\", has_source: "@ + has_source + ", .. }"@
        }
    }

    pub fn display_text(&self) -> (result: String)
        ensures
            result@ == self.shown(),
    {
        let mut text = self.context.to_owned();
        text.append(": ");
        text.append(self.kind.description());
        text
    }

    pub fn debug_text(&self, alternate: bool) -> (result: String)
        ensures
            result@ == self.shown_in_full(alternate),
    {
        let has_source = if self.source.is_some() {
            "true"
        } else {
            "false"
        };
        if alternate {
            let mut text = "Error {\n    kind: ".to_owned();
            text.append(self.kind.name());
            text.append(",\n    context: \"");
            text.append(self.context);
            text.append("\",\n    has_source: ");
            text.append(has_source);
            text.append(",\n    ..\n}");
            text
        } else {
            let mut text = "Error { kind: ".to_owned();
            text.append(self.kind.name());
            text.append(", context: \"");
            text.append(self.context);
            text.append("\", has_source: ");
            text.append(has_source);
            text.append(", .. }");
            text
        }
    }
}

impl core::fmt::Display for Error {
    fn fmt(&self, formatter: &mut core::fmt::Formatter<'_>) -> Result<(), core::fmt::Error> {
        write_text(formatter, self.display_text().as_str())
    }
}

impl core::fmt::Debug for Error {
    fn fmt(&self, formatter: &mut core::fmt::Formatter<'_>) -> Result<(), core::fmt::Error> {
        let text = self.debug_text(is_alternate(formatter));
        write_text(formatter, text.as_str())
    }
}

impl From<std::io::Error> for Error {
    fn from(source: std::io::Error) -> (result: Self) {
        Error::from_io(source)
    }
}

impl vstd::std_specs::convert::FromSpecImpl<std::io::Error> for Error {
    open spec fn obeys_from_spec() -> bool {
        true
    }

    open spec fn from_spec(source: std::io::Error) -> Self {
        io_failure(source)
    }
}

impl From<HeadError> for Error {
    fn from(error: HeadError) -> (result: Self) {
        let kind = match error {
            HeadError::Limit(_) => ErrorKind::Limit,
            HeadError::UnsupportedVersion | HeadError::UnsupportedTransferCoding => {
                ErrorKind::Unsupported
            },
            _ => ErrorKind::InvalidMessage,
        };
        Error {
            kind,
            context: "received HTTP head failed validation",
            source: Some(Source::Head(error)),
        }
    }
}

impl vstd::std_specs::convert::FromSpecImpl<HeadError> for Error {
    open spec fn obeys_from_spec() -> bool {
        true
    }

    open spec fn from_spec(error: HeadError) -> Self {
        head_failure(error)
    }
}

impl From<DecodeError> for Error {
    fn from(error: DecodeError) -> (result: Self) {
        let kind = match error {
            DecodeError::Limit(_) => ErrorKind::Limit,
            _ => ErrorKind::InvalidMessage,
        };
        Error { kind, context: "received body framing failed", source: Some(Source::Decode(error)) }
    }
}

impl vstd::std_specs::convert::FromSpecImpl<DecodeError> for Error {
    open spec fn obeys_from_spec() -> bool {
        true
    }

    open spec fn from_spec(error: DecodeError) -> Self {
        decode_failure(error)
    }
}

impl From<EncodeError> for Error {
    fn from(error: EncodeError) -> (result: Self) {
        let kind = match error {
            EncodeError::Limit => ErrorKind::Limit,
            EncodeError::Unsupported => ErrorKind::Unsupported,
            _ => ErrorKind::LocalMessage,
        };
        Error {
            kind,
            context: "outgoing HTTP message cannot be encoded safely",
            source: Some(Source::Encode(error)),
        }
    }
}

impl vstd::std_specs::convert::FromSpecImpl<EncodeError> for Error {
    open spec fn obeys_from_spec() -> bool {
        true
    }

    open spec fn from_spec(error: EncodeError) -> Self {
        encode_failure(error)
    }
}

} // verus!
