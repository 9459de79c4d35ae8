//! Errors: their categories, their texts and what they keep.

use std::io;
use vakya::error::{Error, ErrorKind, Foreign, Payload, Source};

struct LocalError;

impl Foreign for LocalError {
    fn text(&self) -> String {
        "private local detail".to_string()
    }
}

#[test]
fn formatting_omits_source_text() {
    let error = Error::with_source(ErrorKind::Body, "response body failed", Box::new(LocalError));

    assert_eq!(error.to_string(), "response body failed: body failure");
    assert!(!format!("{error:?}").contains("private local detail"));
}

#[test]
fn io_conversion_preserves_source() {
    let error = Error::from(io::Error::other("peer supplied detail"));

    assert_eq!(error.kind(), ErrorKind::Io);
    assert_eq!(error.to_string(), "HTTP I/O operation failed: I/O failure");
    let Some(Source::Io(source)) = error.source() else {
        panic!("missing source")
    };
    assert_eq!(source.to_string(), "peer supplied detail");
}

#[test]
fn cancellation_is_reported_by_kind() {
    let error = Error::from(karmaio::runtime::operation_canceled());

    assert!(error.is_canceled());
    assert_eq!(error.kind(), ErrorKind::Canceled);
}

#[test]
fn a_timeout_of_io_is_a_timeout() {
    let error = Error::from(io::Error::from(io::ErrorKind::TimedOut));
    assert_eq!(error.kind(), ErrorKind::Timeout);
    assert!(!error.is_canceled());
}

#[test]
fn both_halves_of_a_split_error_share_its_source() {
    let error = Error::with_payload(
        ErrorKind::Service,
        "HTTP service failed",
        Payload { inner: Box::new(LocalError) },
    );
    let (first, second) = error.split();
    assert_eq!(first.kind(), second.kind());
    assert_eq!(first.to_string(), "HTTP service failed: service failure");
    assert_eq!(second.to_string(), first.to_string());
    let (Some(Source::Foreign(one)), Some(Source::Foreign(two))) = (first.source(), second.source())
    else {
        panic!("missing source")
    };
    assert!(std::rc::Rc::ptr_eq(one, two));
    assert_eq!(one.inner.text(), "private local detail");
}

#[test]
fn diagnostics_name_category_and_context() {
    let error = Error::new(ErrorKind::Limit, "too many informational responses");
    assert_eq!(
        format!("{error:?}"),
        "Error { kind: Limit, context: \"too many informational responses\", has_source: false, .. }"
    );
}

#[test]
fn every_category_has_a_description() {
    for (kind, description) in [
        (ErrorKind::Io, "I/O failure"),
        (ErrorKind::Tls, "TLS failure"),
        (ErrorKind::InvalidMessage, "invalid peer message"),
        (ErrorKind::LocalMessage, "invalid local message"),
        (ErrorKind::Body, "body failure"),
        (ErrorKind::Service, "service failure"),
        (ErrorKind::Limit, "configured limit exceeded"),
        (ErrorKind::Timeout, "deadline exceeded"),
        (ErrorKind::Unsupported, "unsupported HTTP behavior"),
        (ErrorKind::Closed, "connection closed"),
        (ErrorKind::Canceled, "operation canceled"),
        (ErrorKind::Upgrade, "upgrade failure"),
        (ErrorKind::Internal, "internal invariant failure"),
    ] {
        assert_eq!(kind.description(), description);
        assert_eq!(kind.name(), format!("{kind:?}"));
    }
}

#[test]
fn errors_are_shown_on_one_line_or_over_several() {
    let error = Error::new(ErrorKind::Timeout, "too late");
    assert_eq!(
        format!("{error:?}"),
        "Error { kind: Timeout, context: \"too late\", has_source: false, .. }"
    );
    assert_eq!(
        format!("{error:#?}"),
        "Error {\n    kind: Timeout,\n    context: \"too late\",\n    has_source: false,\n    ..\n}"
    );
}
