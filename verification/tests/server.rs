//! What a server connection decides.

use bytes::{Bytes, BytesMut};
use http::{HeaderMap, HeaderName, HeaderValue};
use vakya::body::pipe::{Rendezvous, Wait};
use vakya::body::size_hint::SizeHint;
use vakya::body::TrailerHint;
use vakya::error::{Error, ErrorKind, Foreign, Payload, Source};
use vakya::io::recv::{ReadStart, ReadStatus, RecvBuffer};
use vakya::message::{Method, StatusCode, Version};
use vakya::proto::h1::bridge::{ReceiveAction, ReceiveEnd, Told};
use vakya::proto::h1::config::Config;
use vakya::proto::h1::encode::{BodyMetadata, EncodeError, Memory};
use vakya::proto::h1::exchange::{Exchange, Outcome};
use vakya::proto::h1::head::{HeadError, HeadParser, RequestRole};
use vakya::proto::h1::header_case::HeaderCaseMap;
use vakya::proto::h1::scan::HeadScan;
use vakya::proto::h1::server::{
    after_exchange, await_head, awaits_permission, body_demanded, cancels_writer, head_read,
    idle_read_stopped,
    permission_sent, reply, service_result, writer_stopped, Answer, Command, DateCache, Directive,
    HeadStep, Idle, InformationalAction, InformationalWriter, Next, Reply, ServerExchange, Work,
};
use vakya::proto::h1::validate::ValidatedRequestHead;
use vakya::proto::h1::{BodyMode, Expectation, UpgradeKind};

fn holding(bytes: &[u8]) -> RecvBuffer {
    let buffer = RecvBuffer::new(512, 1024).unwrap();
    let ReadStart::Submit { bytes: held, pending, .. } = buffer.read(false) else {
        panic!("read was not submitted")
    };
    let mut held: BytesMut = held;
    held.extend_from_slice(bytes);
    let (result, buffer) = pending.complete(held, Ok(bytes.len()));
    result.unwrap();
    buffer
}

fn served(wire: &[u8]) -> (Result<HeadStep, Error>, RecvBuffer) {
    let mut parser = HeadParser::<RequestRole>::request(Config::default().head);
    let mut buffer = holding(wire);
    let step = await_head(&mut parser, &mut buffer, false);
    (step, buffer)
}

fn request(wire: &[u8]) -> ValidatedRequestHead {
    match served(wire).0 {
        Ok(HeadStep::Serve(head)) => head,
        _ => panic!("the request was not served"),
    }
}

fn get() -> ValidatedRequestHead {
    request(b"GET / HTTP/1.1\r\nHost: example.test\r\n\r\n")
}

fn exchange(head: &ValidatedRequestHead) -> Exchange {
    Exchange::new(head, Config::default().max_informational)
}

fn status(code: u16) -> StatusCode {
    StatusCode::from_u16(code).unwrap()
}

fn answer(code: u16, fields: &[(&'static str, &'static str)], size: SizeHint) -> Answer {
    let mut headers = HeaderMap::new();
    for (name, value) in fields {
        headers.insert(*name, HeaderValue::from_static(value));
    }
    Answer {
        status: status(code),
        version: Version::Http11,
        headers,
        metadata: BodyMetadata { size, trailers: TrailerHint::Absent },
    }
}

fn replied(
    head: &ValidatedRequestHead,
    answer: Answer,
    close: bool,
    date: Option<HeaderValue>,
) -> Result<(Reply, Exchange), Error> {
    let mut exchange = exchange(head);
    let method = head.head.method.copy();
    let config = Config::default().encode;
    let reply = reply(answer, &method, head.head.version, close, date, &config, &mut exchange, Memory::Asked)?;
    Ok((reply, exchange))
}

fn canceled() -> Error {
    Error::new(ErrorKind::Canceled, "canceled")
}

fn failed() -> Error {
    Error::new(ErrorKind::Io, "failed")
}

#[test]
fn requests_are_read_one_after_the_other() {
    let wire = b"GET /a HTTP/1.1\r\nHost: a\r\n\r\nGET /b HTTP/1.1\r\nHost: b\r\n\r\n";
    let (step, buffer) = served(wire);
    let Ok(HeadStep::Serve(head)) = step else { panic!("no request") };
    assert_eq!(head.head.method.as_bytes(), b"GET");
    assert_eq!(buffer.bytes(), b"GET /b HTTP/1.1\r\nHost: b\r\n\r\n");
    let (step, buffer) = served(b"GET / HT");
    assert!(matches!(step, Ok(HeadStep::Read)));
    assert_eq!(buffer.len(), 8);
    let (step, _) = served(b"GET / HTTP/1.1\r\n\r\n");
    assert!(matches!(step.unwrap_err().source(), Some(Source::Head(_))));
    let mut parser = HeadParser::<RequestRole>::request(Config::default().head);
    let mut buffer = holding(b"GET / HTTP/1.1\r\nHost: a\r\n\r\n");
    let error = await_head(&mut parser, &mut buffer, true).unwrap_err();
    assert_eq!(error.kind(), ErrorKind::Timeout);
}

#[test]
fn what_an_old_client_may_not_ask_for_is_ignored() {
    let head = request(
        b"POST / HTTP/1.0\r\nContent-Length: 1\r\nExpect: 100-continue\r\nConnection: upgrade\r\nUpgrade: websocket\r\n\r\n",
    );
    assert_eq!(head.expectation, Expectation::Absent);
    assert_eq!(head.upgrade, None);
    assert_eq!(head.body, BodyMode::Fixed(1));
    let (step, _) = served(b"POST / HTTP/1.0\r\nExpect: unsupported\r\n\r\n");
    assert!(matches!(
        step.unwrap_err().source(),
        Some(Source::Head(HeadError::InvalidExpectation))
    ));
}

#[test]
fn an_end_between_requests_is_clean() {
    assert_eq!(head_read(Ok(ReadStatus::Data(1)), false).unwrap(), Idle::Look);
    assert_eq!(head_read(Ok(ReadStatus::Eof), true).unwrap(), Idle::Shutdown);
    let error = head_read(Ok(ReadStatus::Eof), false).unwrap_err();
    assert_eq!(error.context, "connection ended inside a request head");
    assert_eq!(head_read(Err(failed()), true).unwrap_err().kind(), ErrorKind::Io);
    assert_eq!(idle_read_stopped(Err(canceled())).unwrap(), Idle::Shutdown);
    assert_eq!(idle_read_stopped(Ok(ReadStatus::Data(1))).unwrap(), Idle::Shutdown);
    assert_eq!(idle_read_stopped(Err(failed())).unwrap_err().kind(), ErrorKind::Io);
}

#[test]
fn permission_is_sent_once_the_body_is_asked_for() {
    let expecting = request(
        b"POST / HTTP/1.1\r\nHost: a\r\nContent-Length: 3\r\nExpect: 100-continue\r\n\r\n",
    );
    assert!(awaits_permission(&expecting));
    assert!(!awaits_permission(&get()));
    assert!(body_demanded(Some(Ok(()))).is_none());
    let mut pipe = Rendezvous::<(), (), ()>::new();
    pipe.abandon();
    let Wait::Ready(demand) = pipe.demand(()) else { panic!("abandonment unanswered") };
    assert!(matches!(
        body_demanded(Some(demand)),
        Some(ReceiveAction::End { end: ReceiveEnd::Abandoned, told: Told::Nothing })
    ));
    let Some(ReceiveAction::End { end: ReceiveEnd::Failed(error), told: Told::Fail(_) }) =
        body_demanded(None)
    else {
        panic!("cancellation did not fail the body")
    };
    assert_eq!(error.context, "request receive canceled");
    assert!(permission_sent(Some(Ok(()))).is_none());
    let Some(ReceiveAction::End { end: ReceiveEnd::Failed(error), .. }) =
        permission_sent(Some(Err(failed())))
    else {
        panic!("failure lost")
    };
    assert_eq!(error.kind(), ErrorKind::Io);
    let Some(ReceiveAction::End { end: ReceiveEnd::Failed(error), .. }) = permission_sent(None)
    else {
        panic!("cancellation lost")
    };
    assert_eq!(error.context, "Continue demand canceled");
}

/// An exchange whose response head was sent.
fn answered(close: bool) -> ServerExchange {
    let (_, exchange) = replied(&get(), answer(204, &[], SizeHint::with_exact(0)), close, None)
        .unwrap();
    ServerExchange::new(exchange, close)
}

#[test]
fn a_whole_exchange_is_followed_by_another() {
    for receive_first in [false, true] {
        let mut state = answered(false);
        if receive_first {
            assert_eq!(state.receive_ended(ReceiveEnd::Complete), Directive::Continue);
        }
        assert_eq!(state.service_ended(Ok(())), Directive::Continue);
        assert!(!state.respond());
        assert_eq!(state.response_ended(Ok(())), Directive::Continue);
        if !receive_first {
            assert_eq!(state.receive_ended(ReceiveEnd::Complete), Directive::Continue);
        }
        assert_eq!(state.conclude().unwrap(), Outcome::Reusable);
    }
    let mut closing = answered(true);
    closing.receive_ended(ReceiveEnd::Complete);
    closing.service_ended(Ok(()));
    assert!(closing.respond());
    closing.response_ended(Ok(()));
    assert_eq!(closing.conclude().unwrap(), Outcome::Close);
}

#[test]
fn an_abandoned_body_closes_the_connection() {
    let mut state = answered(false);
    state.receive_ended(ReceiveEnd::Abandoned);
    state.service_ended(Ok(()));
    assert!(state.respond());
    state.response_ended(Ok(()));
    assert_eq!(state.conclude().unwrap(), Outcome::Close);
}

#[test]
fn a_failed_body_cancels_what_runs_and_keeps_an_unstarted_response_back() {
    let mut calling = answered(false);
    assert_eq!(calling.receive_ended(ReceiveEnd::Failed(failed())), Directive::Cancel);
    assert_eq!(calling.service_ended(Ok(())), Directive::Continue);
    assert_eq!(calling.work(), Work::Ended);
    assert_eq!(calling.conclude().unwrap_err().kind(), ErrorKind::Io);
    let mut ready = answered(false);
    ready.service_ended(Ok(()));
    assert_eq!(ready.receive_ended(ReceiveEnd::Failed(failed())), Directive::Continue);
    assert_eq!(ready.work(), Work::Ended);
    let mut sending = answered(false);
    sending.service_ended(Ok(()));
    sending.respond();
    assert_eq!(sending.receive_ended(ReceiveEnd::Failed(failed())), Directive::Cancel);
    assert_eq!(sending.response_ended(Err(canceled())), Directive::Cancel);
    assert_eq!(sending.conclude().unwrap_err().kind(), ErrorKind::Io);
}

#[test]
fn a_failed_service_cancels_receiving() {
    let mut state = answered(false);
    assert_eq!(state.service_ended(Err(failed())), Directive::Cancel);
    state.receive_ended(ReceiveEnd::Failed(canceled()));
    assert_eq!(state.conclude().unwrap_err().kind(), ErrorKind::Io);
}

#[test]
fn outcomes_say_what_the_connection_does() {
    assert_eq!(after_exchange(Outcome::Reusable).unwrap(), Next::Await);
    assert_eq!(after_exchange(Outcome::Close).unwrap(), Next::Shutdown);
    assert_eq!(
        after_exchange(Outcome::Handoff(UpgradeKind::Tunnel)).unwrap(),
        Next::Handoff(UpgradeKind::Tunnel)
    );
    assert_eq!(after_exchange(Outcome::Active).unwrap_err().kind(), ErrorKind::Internal);
}

struct Reason;

impl Foreign for Reason {
    fn text(&self) -> String {
        "reason".to_string()
    }
}

#[test]
fn services_and_writers_report_their_failures() {
    assert_eq!(service_result(Some(Ok(1)), Ok(())).unwrap(), 1);
    let writer = service_result(Some(Ok(1)), Err(failed())).unwrap_err();
    assert_eq!(writer.kind(), ErrorKind::Io);
    let service = service_result::<()>(Some(Err(Payload { inner: Box::new(Reason) })), Ok(()));
    let service = service.unwrap_err();
    assert_eq!(service.kind(), ErrorKind::Service);
    assert!(matches!(service.source(), Some(Source::Foreign(_))));
    assert_eq!(service_result::<()>(None, Ok(())).unwrap_err().kind(), ErrorKind::Canceled);
    assert_eq!(writer_stopped(Err(failed())).kind(), ErrorKind::Io);
    assert_eq!(writer_stopped(Ok(())).context, "informational writer stopped");
}

fn hints() -> Command {
    let mut headers = HeaderMap::new();
    headers.insert("link", HeaderValue::from_static("</style.css>"));
    Command::Application { status: status(103), version: Version::Http11, headers }
}

#[test]
fn informational_responses_are_written_within_their_budget() {
    let config = Config::default().encode;
    let mut writer = InformationalWriter::new(2);
    let InformationalAction::Write { head, automatic: true } =
        writer.next(Command::Continue, Version::Http11, &config, Memory::Asked)
    else {
        panic!("permission was not written")
    };
    assert_eq!(head.bytes, "HTTP/1.1 100 Continue\r\n\r\n");
    let (driver, told) = writer.written(true, Ok(()));
    assert!(driver.is_ok() && told.is_none());
    let InformationalAction::Write { head, automatic: false } =
        writer.next(hints(), Version::Http11, &config, Memory::Asked)
    else {
        panic!("hints were not written")
    };
    assert_eq!(head.bytes, "HTTP/1.1 103 Early Hints\r\nlink: </style.css>\r\n\r\n");
    let (driver, told) = writer.written(false, Ok(()));
    assert!(driver.is_ok() && told.unwrap().is_ok());
    let InformationalAction::Refuse(error) = writer.next(hints(), Version::Http11, &config, Memory::Asked) else {
        panic!("the budget was exceeded")
    };
    assert_eq!(error.kind(), ErrorKind::Limit);
    assert!(matches!(
        writer.next(Command::Continue, Version::Http11, &config, Memory::Asked),
        InformationalAction::Stop(_)
    ));
}

#[test]
fn responses_without_memory_are_refused() {
    let config = Config::default().encode;
    let writer = InformationalWriter::new(2);
    assert!(matches!(
        writer.next(Command::Continue, Version::Http11, &config, Memory::Granted),
        InformationalAction::Write { .. }
    ));
    assert!(matches!(
        writer.next(Command::Continue, Version::Http11, &config, Memory::Refused),
        InformationalAction::Stop(_)
    ));
    let InformationalAction::Refuse(error) =
        writer.next(hints(), Version::Http11, &config, Memory::Refused)
    else {
        panic!("hints were written")
    };
    assert_eq!(error.kind(), ErrorKind::Limit);
    let head = get();
    let method = head.head.method.copy();
    let empty = || answer(200, &[], SizeHint::with_exact(0));
    let mut state = ServerExchange::new(exchange(&head), false);
    state.service_ended(Ok(()));
    assert_eq!(state.work(), Work::Ready);
    assert!(!state.respond());
    let version = Version::Http11;
    let refused = state.reply(empty(), &method, version, None, &config, Memory::Refused);
    assert!(matches!(refused.unwrap_err().source(), Some(Source::Encode(EncodeError::Limit))));
    let reply = state.reply(empty(), &method, version, None, &config, Memory::Granted).unwrap();
    assert_eq!(reply.head.bytes, "HTTP/1.1 200 OK\r\ncontent-length: 0\r\n\r\n");
}

#[test]
fn a_request_to_close_is_kept() {
    let mut state = answered(false);
    state.close_if(true);
    state.close_if(false);
    state.receive_ended(ReceiveEnd::Complete);
    state.service_ended(Ok(()));
    assert!(state.respond());
    state.response_ended(Ok(()));
    assert_eq!(state.conclude().unwrap(), Outcome::Close);
    assert!(!cancels_writer(&Some(Ok::<(), ()>(()))));
    assert!(cancels_writer(&Some(Err::<(), ()>(()))));
    assert!(cancels_writer::<(), ()>(&None));
}

#[test]
fn a_head_that_was_read_is_gone_though_it_is_refused() {
    let (step, buffer) = served(b"GET / HTTP/1.1\r\n\r\nnext");
    assert!(step.is_err());
    assert_eq!(buffer.bytes(), b"next");
    let (step, buffer) = served(b"GET / HTTP/3.0\r\n\r\nnext");
    assert!(step.is_err());
    assert_eq!(buffer.bytes(), b"GET / HTTP/3.0\r\n\r\nnext");
}

#[test]
fn informational_responses_need_a_peer_that_knows_them() {
    let config = Config::default().encode;
    let mut writer = InformationalWriter::new(2);
    let InformationalAction::Refuse(error) = writer.next(hints(), Version::Http10, &config, Memory::Asked) else {
        panic!("hints were written")
    };
    assert_eq!(error.kind(), ErrorKind::Unsupported);
    let mut headers = HeaderMap::new();
    headers.insert("content-length", HeaderValue::from_static("3"));
    let framed = Command::Application { status: status(103), version: Version::Http11, headers };
    let InformationalAction::Refuse(error) = writer.next(framed, Version::Http11, &config, Memory::Asked) else {
        panic!("framing was written")
    };
    assert!(matches!(error.source(), Some(Source::Encode(_))));
    let (driver, told) = writer.written(false, Err(failed()));
    assert_eq!(driver.unwrap_err().kind(), ErrorKind::Io);
    assert_eq!(told.unwrap().unwrap_err().kind(), ErrorKind::Io);
    assert_eq!(writer.count, 0);
    assert!(InformationalWriter::awaited(Some(None)).unwrap().is_none());
    assert!(InformationalWriter::awaited(Some(Some(Command::Continue))).unwrap().is_some());
    let stopped = InformationalWriter::awaited(None).err().unwrap();
    assert_eq!(stopped.context, "informational writer canceled");
}

#[test]
fn dates_are_written_once_a_second() {
    let mut cache = DateCache::new();
    let date = cache.value(784111777);
    assert_eq!(date, "Sun, 06 Nov 1994 08:49:37 GMT");
    assert_eq!(cache.value(784111777), date);
    assert_eq!(cache.value(784111778), "Sun, 06 Nov 1994 08:49:38 GMT");
    assert_eq!(cache.value(0), "Thu, 01 Jan 1970 00:00:00 GMT");
    assert_eq!(cache.value(253402300799), "Fri, 31 Dec 9999 23:59:59 GMT");
}

#[test]
fn replies_carry_date_and_connection_fields() {
    let date = Some(HeaderValue::from_static("Sun, 06 Nov 1994 08:49:37 GMT"));
    let (reply, _) =
        replied(&get(), answer(200, &[], SizeHint::with_exact(2)), true, date.clone()).unwrap();
    let text = String::from_utf8(reply.head.bytes.to_vec()).unwrap();
    assert!(text.starts_with("HTTP/1.1 200 OK\r\n"));
    assert!(text.contains("connection: close\r\n"));
    assert!(text.contains("date: Sun, 06 Nov 1994 08:49:37 GMT\r\n"));
    assert!(text.contains("content-length: 2\r\n"));
    assert_eq!(reply.head.mode, BodyMode::Fixed(2));
    let own = answer(200, &[("date", "mine")], SizeHint::with_exact(0));
    let (reply, _) = replied(&get(), own, false, date).unwrap();
    let text = String::from_utf8(reply.head.bytes.to_vec()).unwrap();
    assert!(text.contains("date: mine\r\n") && !text.contains("1994"));
    assert!(!text.contains("connection"));
}

#[test]
fn old_peers_are_answered_in_their_version() {
    let head = request(b"GET / HTTP/1.0\r\n\r\n");
    let (reply, _) =
        replied(&head, answer(200, &[], SizeHint::with_exact(0)), false, None).unwrap();
    assert!(reply.head.bytes.starts_with(b"HTTP/1.0 200 OK\r\n"));
}

#[test]
fn replies_that_belong_elsewhere_are_refused() {
    let hints = replied(&get(), answer(103, &[], SizeHint::with_exact(0)), false, None);
    assert_eq!(hints.err().unwrap().kind(), ErrorKind::Unsupported);
    let head = request(
        b"GET / HTTP/1.1\r\nHost: a\r\nConnection: upgrade\r\nUpgrade: websocket\r\n\r\n",
    );
    let switching = || {
        answer(
            101,
            &[("connection", "upgrade"), ("upgrade", "websocket")],
            SizeHint::with_exact(0),
        )
    };
    let tunnel = request(b"CONNECT example.test:443 HTTP/1.1\r\nHost: example.test:443\r\n\r\n");
    let open = || answer(200, &[], SizeHint::with_exact(0));
    let closing = replied(&tunnel, open(), true, None).err().unwrap();
    assert_eq!(closing.kind(), ErrorKind::Upgrade);
    let (reply, _) = replied(&tunnel, open(), false, None).unwrap();
    assert_eq!(reply.head.upgrade, Some(UpgradeKind::Tunnel));
    assert!(replied(&head, switching(), false, None).is_ok());
    let unasked = replied(&get(), switching(), false, None);
    assert!(unasked.is_err());
    let conflict = answer(200, &[("content-length", "3")], SizeHint::with_exact(2));
    assert!(replied(&get(), conflict, false, None).is_err());
}

#[test]
fn spellings_are_kept_in_the_order_of_their_lines() {
    let mut spellings = HeaderCaseMap::new();
    let accept = HeaderName::from_static("accept");
    spellings.append(accept.clone(), Bytes::from_static(b"Accept"));
    spellings.append(HeaderName::from_static("host"), Bytes::from_static(b"HOST"));
    spellings.append(accept.clone(), Bytes::from_static(b"aCCept"));
    assert_eq!(spellings.get_all(&accept), [&b"Accept"[..], &b"aCCept"[..]]);
    assert_eq!(spellings.get_all(&HeaderName::from_static("host")), [&b"HOST"[..]]);
    assert!(spellings.get_all(&HeaderName::from_static("te")).is_empty());
}

#[test]
fn heads_end_with_an_empty_line_wherever_they_are_split() {
    let wire = b"\r\nGET / HTTP/1.1\r\nHost: a\r\n\r\nbody";
    let end = wire.len() - 4;
    for split in 0..wire.len() {
        let mut scan = HeadScan::new();
        let first = scan.complete(&wire[..split]);
        assert_eq!(first, if split < end { None } else { Some(end) });
        assert_eq!(scan.complete(wire), Some(end));
    }
    assert_eq!(HeadScan::new().complete(b"a\n\nrest"), Some(3));
}
