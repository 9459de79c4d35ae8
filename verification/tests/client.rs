//! What a client connection decides.

use bytes::BytesMut;
use http::{HeaderMap, HeaderValue};
use vakya::body::size_hint::SizeHint;
use vakya::body::TrailerHint;
use vakya::error::{Error, ErrorKind, Source};
use vakya::io::recv::{ReadStart, ReadStatus, RecvBuffer};
use vakya::message::{Method, Target, Version};
use vakya::proto::h1::bridge::ReceiveEnd;
use vakya::proto::h1::client::{
    after_exchange, await_head, conclude, depart, head_read, head_written, observed,
    permission_awaited, received, report_failure, stops_receiving, stops_upload, Departure,
    HeadStep, Next, UploadStep,
};
use vakya::proto::h1::config::Config;
use vakya::proto::h1::encode::{BodyMetadata, EncodeError, Memory};
use vakya::proto::h1::exchange::{Exchange, Outcome};
use vakya::proto::h1::head::{HeadParser, ResponseRole};
use vakya::proto::h1::{BodyMode, UpgradeKind};

fn request(method: &str, fields: &[(&'static str, &'static str)], size: SizeHint) -> Result<Departure, Error> {
    let mut headers = HeaderMap::new();
    headers.insert("host", HeaderValue::from_static("example.test"));
    for (name, value) in fields {
        headers.insert(*name, HeaderValue::from_static(value));
    }
    let config = Config::default();
    depart(
        Method::from_bytes(method.as_bytes()).unwrap(),
        Target::from_bytes(b"/").unwrap(),
        Version::Http11,
        headers,
        BodyMetadata { size, trailers: TrailerHint::Absent },
        config.encode,
        config.max_informational,
        Memory::Asked,
    )
}

fn get() -> Departure {
    request("GET", &[], SizeHint::with_exact(0)).unwrap()
}

fn post() -> Departure {
    let fields = [("expect", "100-continue")];
    request("POST", &fields, SizeHint::with_exact(3)).unwrap()
}

fn holding(bytes: &[u8]) -> RecvBuffer {
    let buffer = RecvBuffer::new(512, 1024).unwrap();
    if bytes.is_empty() {
        return buffer;
    }
    let ReadStart::Submit { bytes: held, pending, .. } = buffer.read(false) else {
        panic!("read was not submitted")
    };
    let mut held: BytesMut = held;
    held.extend_from_slice(bytes);
    let (result, buffer) = pending.complete(held, Ok(bytes.len()));
    result.unwrap();
    buffer
}

fn await_response(
    wire: &[u8],
    exchange: &mut Exchange,
) -> (Result<HeadStep, Error>, RecvBuffer) {
    let mut parser = HeadParser::<ResponseRole>::response(Config::default().head);
    let mut buffer = holding(wire);
    let step = await_head(&mut parser, &mut buffer, exchange, false);
    (step, buffer)
}

fn canceled() -> Error {
    Error::new(ErrorKind::Canceled, "canceled")
}

fn failed() -> Error {
    Error::new(ErrorKind::Io, "failed")
}

#[test]
fn a_request_departs_with_its_framing() {
    let departure = get();
    assert_eq!(departure.head.bytes, "GET / HTTP/1.1\r\nhost: example.test\r\ncontent-length: 0\r\n\r\n");
    assert!(!departure.expects_continue);
    let departure = post();
    assert_eq!(departure.head.mode, BodyMode::Fixed(3));
    assert!(departure.expects_continue);
    assert!(!departure.exchange.request_body_allowed());
    let expecting = request("POST", &[("expect", "100-continue")], SizeHint::with_exact(0));
    assert!(!expecting.unwrap().expects_continue);
    let refused = request("POST", &[("content-length", "4")], SizeHint::with_exact(3));
    let error = refused.err().unwrap();
    assert!(matches!(error.source(), Some(Source::Encode(EncodeError::LengthMismatch))));
}

#[test]
fn an_upload_waits_for_permission_only_where_configured() {
    assert_eq!(head_written(&post(), true), UploadStep::AwaitPermission);
    assert_eq!(head_written(&post(), false), UploadStep::SendBody);
    let mut departure = get();
    assert_eq!(head_written(&departure, true), UploadStep::SendBody);
    departure.head.mode = BodyMode::Empty;
    assert_eq!(head_written(&departure, true), UploadStep::Flush);
    assert_eq!(permission_awaited(BodyMode::Fixed(3), false).unwrap(), UploadStep::SendBody);
    assert_eq!(permission_awaited(BodyMode::Empty, false).unwrap(), UploadStep::Flush);
    let error = permission_awaited(BodyMode::Fixed(3), true).unwrap_err();
    assert_eq!(error.context, "Continue wait canceled");
}

#[test]
fn informational_heads_come_before_the_final_one() {
    let mut exchange = post().exchange;
    let wire = b"HTTP/1.1 103 Early Hints\r\n\r\nHTTP/1.1 100 Continue\r\n\r\nHTTP/1.1 204 No Content\r\n\r\n";
    let (step, mut buffer) = await_response(wire, &mut exchange);
    let Ok(HeadStep::Informational { head, permits: false }) = step else {
        panic!("no early hints")
    };
    assert_eq!(head.head.status.as_u16(), 103);
    assert!(!exchange.request_body_allowed());
    let mut parser = HeadParser::<ResponseRole>::response(Config::default().head);
    let step = await_head(&mut parser, &mut buffer, &mut exchange, false);
    assert!(matches!(step, Ok(HeadStep::Informational { permits: true, .. })));
    assert!(exchange.request_body_allowed());
    let step = await_head(&mut parser, &mut buffer, &mut exchange, false);
    assert!(matches!(step, Ok(HeadStep::Final { .. })));
    assert_eq!(buffer.len(), 0);
}

#[test]
fn partial_heads_are_read_on_and_deadlines_come_first() {
    let mut exchange = get().exchange;
    let (step, buffer) = await_response(b"HTTP/1.1 200 OK\r\nContent-", &mut exchange);
    assert!(matches!(step, Ok(HeadStep::Read)));
    assert_eq!(buffer.bytes(), b"HTTP/1.1 200 OK\r\nContent-");
    let mut parser = HeadParser::<ResponseRole>::response(Config::default().head);
    let mut buffer = holding(b"HTTP/1.1 200 OK\r\n\r\n");
    let error = await_head(&mut parser, &mut buffer, &mut exchange, true).unwrap_err();
    assert_eq!(error.kind(), ErrorKind::Timeout);
    assert_eq!(buffer.len(), 19);
    let (step, _) = await_response(b"nonsense\r\n\r\n", &mut exchange);
    assert!(matches!(step.unwrap_err().source(), Some(Source::Head(_))));
}

#[test]
fn an_end_before_the_response_tells_how_much_came() {
    assert!(head_read(Ok(ReadStatus::Data(3)), true).is_ok());
    assert_eq!(head_read(Ok(ReadStatus::Eof), true).unwrap_err().kind(), ErrorKind::Closed);
    assert_eq!(
        head_read(Ok(ReadStatus::Eof), false).unwrap_err().kind(),
        ErrorKind::InvalidMessage
    );
    assert_eq!(head_read(Err(failed()), true).unwrap_err().kind(), ErrorKind::Io);
}

#[test]
fn observers_take_a_response_in_time() {
    assert!(observed(true, false).is_ok());
    assert_eq!(observed(false, false).unwrap_err().kind(), ErrorKind::Canceled);
    assert_eq!(observed(true, true).unwrap_err().kind(), ErrorKind::Timeout);
}

#[test]
fn one_direction_stops_the_other() {
    assert!(stops_upload(&Err(failed())));
    assert!(stops_upload(&Ok(ReceiveEnd::Abandoned)));
    assert!(!stops_upload(&Ok(ReceiveEnd::Complete)));
    assert!(!stops_receiving(&Ok(()), true));
    assert!(!stops_receiving(&Err(canceled()), true));
    assert!(stops_receiving(&Err(canceled()), false));
    assert!(stops_receiving(&Err(failed()), true));
}

fn answered() -> Exchange {
    let mut exchange = get().exchange;
    let (step, _) = await_response(b"HTTP/1.1 200 OK\r\nContent-Length: 0\r\n\r\n", &mut exchange);
    step.unwrap();
    exchange
}

#[test]
fn reuse_follows_a_clean_exchange_only() {
    assert_eq!(
        conclude(answered(), Ok(ReceiveEnd::Complete), Ok(()), false).unwrap(),
        Outcome::Reusable
    );
    assert_eq!(
        conclude(answered(), Ok(ReceiveEnd::Complete), Ok(()), true).unwrap(),
        Outcome::Close
    );
    assert_eq!(
        conclude(answered(), Ok(ReceiveEnd::Complete), Err(canceled()), true).unwrap(),
        Outcome::Close
    );
    assert_eq!(
        conclude(answered(), Ok(ReceiveEnd::Abandoned), Err(canceled()), false).unwrap(),
        Outcome::Close
    );
    // A response was never reported.
    let unanswered = conclude(get().exchange, Ok(ReceiveEnd::Complete), Ok(()), false);
    assert_eq!(unanswered.unwrap_err().kind(), ErrorKind::Internal);
}

#[test]
fn the_failure_that_came_first_is_reported() {
    let both = conclude(answered(), Err(canceled()), Err(failed()), false);
    assert_eq!(both.unwrap_err().kind(), ErrorKind::Io);
    let received_first = conclude(answered(), Err(failed()), Err(canceled()), false);
    assert_eq!(received_first.unwrap_err().kind(), ErrorKind::Io);
    let sent = conclude(answered(), Ok(ReceiveEnd::Complete), Err(failed()), true);
    assert_eq!(sent.unwrap_err().kind(), ErrorKind::Io);
    let stopped = conclude(answered(), Ok(ReceiveEnd::Complete), Err(canceled()), false);
    assert_eq!(stopped.unwrap_err().kind(), ErrorKind::Canceled);
    let end = received(ReceiveEnd::Failed(failed()));
    assert_eq!(end.unwrap_err().kind(), ErrorKind::Io);
    assert!(matches!(received(ReceiveEnd::Abandoned), Ok(ReceiveEnd::Abandoned)));
    let (driver, observer) = report_failure(failed(), true);
    assert_eq!(driver.context, observer.unwrap().context);
    assert!(report_failure(failed(), false).1.is_none());
}

#[test]
fn unsolicited_input_forbids_reuse() {
    assert_eq!(after_exchange(Outcome::Reusable, false, false).unwrap(), Next::Release);
    assert_eq!(after_exchange(Outcome::Reusable, false, true).unwrap(), Next::Shutdown);
    assert_eq!(
        after_exchange(Outcome::Reusable, true, false).unwrap_err().kind(),
        ErrorKind::InvalidMessage
    );
    assert_eq!(after_exchange(Outcome::Close, true, false).unwrap(), Next::Shutdown);
    assert_eq!(
        after_exchange(Outcome::Handoff(UpgradeKind::Tunnel), true, true).unwrap(),
        Next::Handoff(UpgradeKind::Tunnel)
    );
    assert_eq!(
        after_exchange(Outcome::Active, false, false).unwrap_err().kind(),
        ErrorKind::Internal
    );
}

#[test]
fn a_request_without_memory_does_not_depart() {
    let request = |memory: Memory| {
        let config = Config::default();
        let mut headers = HeaderMap::new();
        headers.insert("host", HeaderValue::from_static("a"));
        depart(
            Method::from_bytes(b"GET").unwrap(),
            Target::from_bytes(b"/").unwrap(),
            Version::Http11,
            headers,
            BodyMetadata::exact(0),
            config.encode,
            config.max_informational,
            memory,
        )
    };
    let departure = request(Memory::Granted).unwrap_or_else(|_| panic!("not sent"));
    assert_eq!(departure.head.bytes, "GET / HTTP/1.1\r\nhost: a\r\ncontent-length: 0\r\n\r\n");
    assert_eq!(departure.head.upgrade, None);
    let Err(error) = request(Memory::Refused) else { panic!("sent without memory") };
    assert!(matches!(error.source(), Some(Source::Encode(EncodeError::Limit))));
}
