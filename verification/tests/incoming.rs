//! Received bodies as their reader sees them.

use bytes::Bytes;
use http::{HeaderMap, HeaderValue};
use std::rc::Rc;
use std::time::{Duration, Instant};
use vakya::body::frame::Frame;
use vakya::body::incoming::{
    normalize_range, Edge, Incoming, IncomingData, Leased, ManagedLeasePermit,
};
use vakya::body::pipe::{Rendezvous, TakeError, Wait};
use vakya::body::size_hint::SizeHint;
use vakya::body::{Buffer, TrailerHint};
use vakya::error::{Error, ErrorKind, Foreign, Source};

type Pipe = Rendezvous<Frame<IncomingData>, Error, ()>;

/// Takes the next frame, where the rendezvous has an answer.
fn next(
    incoming: &mut Incoming,
    pipe: &mut Pipe,
) -> Wait<Result<Option<Frame<IncomingData>>, Error>> {
    if incoming.is_end_stream() {
        return Wait::Ready(incoming.next_frame(Ok(None)));
    }
    match pipe.take(()).0 {
        Wait::Pending => Wait::Pending,
        Wait::Ready(taken) => Wait::Ready(incoming.next_frame(taken)),
    }
}

fn data(bytes: &'static [u8]) -> Frame<IncomingData> {
    Frame::data(IncomingData::from_bytes(Bytes::from_static(bytes)))
}

#[test]
fn exact_zero_does_not_hide_trailers_or_disconnect() {
    let mut incoming = Incoming::channel(SizeHint::with_exact(0), TrailerHint::MayHave);
    let mut pipe = Pipe::new();
    assert!(!incoming.is_end_stream());
    assert!(matches!(next(&mut incoming, &mut pipe), Wait::Pending));
    let mut trailers = HeaderMap::new();
    trailers.insert("x-end", HeaderValue::from_static("yes"));
    assert!(matches!(pipe.offer(Frame::trailers(trailers), ()).0, Wait::Pending));
    let Wait::Ready(Ok(Some(frame))) = next(&mut incoming, &mut pipe) else {
        panic!("missing trailers")
    };
    assert_eq!(frame.trailers_ref().unwrap()["x-end"], "yes");
    assert!(matches!(pipe.offered(()), Wait::Ready(Ok(()))));
    assert_eq!(incoming.trailer_hint(), TrailerHint::Absent);
    assert!(!incoming.is_end_stream());
    pipe.disconnect();
    let Wait::Ready(Err(error)) = next(&mut incoming, &mut pipe) else {
        panic!("disconnect hidden")
    };
    assert_eq!(error.kind(), ErrorKind::Closed);
    assert!(incoming.is_end_stream());
    assert!(matches!(next(&mut incoming, &mut pipe), Wait::Ready(Ok(None))));
}

#[test]
fn terminal_failure_preserves_original_local_source_and_fuses() {
    struct Local(Rc<()>);
    impl Foreign for Local {
        fn text(&self) -> String {
            format!("local error {}", Rc::strong_count(&self.0))
        }
    }
    let identity = Rc::new(());
    let mut incoming = Incoming::channel(SizeHint::new(), TrailerHint::MayHave);
    let mut pipe = Pipe::new();
    pipe.fail(Error::with_source(
        ErrorKind::Io,
        "receive failed",
        Box::new(Local(identity.clone())),
    ));
    let Wait::Ready(Err(error)) = next(&mut incoming, &mut pipe) else {
        panic!("missing error")
    };
    let Some(Source::Foreign(payload)) = error.source() else {
        panic!("missing source")
    };
    assert_eq!(payload.inner.text(), "local error 2");
    assert!(matches!(next(&mut incoming, &mut pipe), Wait::Ready(Ok(None))));
}

#[test]
fn payload_views_outlive_endpoints_and_keep_independent_cursors() {
    let mut incoming = Incoming::channel(SizeHint::with_exact(7), TrailerHint::Absent);
    let mut pipe = Pipe::new();
    let bytes = Bytes::from(vec![b'p', b'a', b'y', b'l', b'o', b'a', b'd']);
    let pointer = bytes.as_ptr();
    assert!(matches!(
        pipe.offer(Frame::data(IncomingData::from_bytes(bytes)), ()).0,
        Wait::Pending
    ));
    let Wait::Ready(Ok(Some(frame))) = next(&mut incoming, &mut pipe) else {
        panic!("missing payload")
    };
    assert!(matches!(pipe.offered(()), Wait::Ready(Ok(()))));
    let payload = frame.into_data().unwrap();
    assert_eq!(incoming.size_hint().exact(), Some(0));
    pipe.close();
    drop(incoming);
    let mut clone = payload.clone();
    clone.advance(3);
    assert_eq!(clone.as_ref(), b"load");
    assert_eq!(payload.as_init().as_ptr(), pointer);
    assert_eq!(payload.slice(1..4).as_ref(), b"ayl");
    assert_eq!(payload.as_ref(), b"payload");
    assert!(!format!("{payload:?}").contains("payload"));
    assert_eq!(format!("{payload:?}"), "IncomingData { length: 7, .. }");
}

#[test]
fn frames_that_break_the_framing_end_the_body() {
    let mut long = Incoming::channel(SizeHint::with_exact(2), TrailerHint::Absent);
    let error = long.next_frame(Ok(Some(data(b"abc")))).unwrap_err();
    assert_eq!(error.to_string(), "received body violated its framing metadata: invalid peer message");
    assert!(long.is_end_stream());

    let mut short = Incoming::channel(SizeHint::with_exact(2), TrailerHint::Absent);
    assert!(short.next_frame(Ok(Some(data(b"a")))).unwrap().is_some());
    assert_eq!(short.size_hint().exact(), Some(1));
    let error = short.next_frame(Ok(None)).unwrap_err();
    assert_eq!(
        error.to_string(),
        "received body ended before its declared length: invalid peer message"
    );

    let mut forbidden = Incoming::channel(SizeHint::new(), TrailerHint::Absent);
    let error = forbidden.next_frame(Ok(Some(Frame::trailers(HeaderMap::new())))).unwrap_err();
    assert_eq!(error.to_string(), "received trailers violated body framing: invalid peer message");

    let mut late = Incoming::channel(SizeHint::new(), TrailerHint::MayHave);
    assert!(late.next_frame(Ok(Some(Frame::trailers(HeaderMap::new())))).unwrap().is_some());
    assert_eq!(
        late.next_frame(Ok(Some(data(b"x")))).unwrap_err().kind(),
        ErrorKind::InvalidMessage
    );

    let mut failed = Incoming::channel(SizeHint::new(), TrailerHint::MayHave);
    let error = failed.next_frame(Err(TakeError::Disconnected)).unwrap_err();
    assert_eq!(error.kind(), ErrorKind::Closed);
    assert!(failed.next_frame(Ok(Some(data(b"x")))).unwrap().is_none());
}

#[test]
fn empty_bodies_have_ended_from_the_start() {
    let mut empty = Incoming::empty();
    assert!(empty.is_end_stream());
    assert_eq!(empty.size_hint().exact(), Some(0));
    assert_eq!(empty.trailer_hint(), TrailerHint::Absent);
    assert!(empty.next_frame(Ok(None)).unwrap().is_none());
}

#[test]
fn draining_is_bounded_by_payload_and_time() {
    let mut remaining = 5;
    Incoming::discard(&mut remaining, data(b"abc")).unwrap();
    Incoming::discard(&mut remaining, Frame::trailers(HeaderMap::new())).unwrap();
    assert_eq!(remaining, 2);
    let error = Incoming::discard(&mut remaining, data(b"def")).unwrap_err();
    assert_eq!(error.to_string(), "body drain payload limit exceeded: configured limit exceeded");
    assert_eq!(remaining, 2);
    assert!(Incoming::drain_result(Ok(()), false).is_ok());
    assert_eq!(
        Incoming::drain_result(Ok(()), true).unwrap_err().to_string(),
        "body drain deadline exceeded: deadline exceeded"
    );
    assert_eq!(
        Incoming::drain_deadline(None).unwrap_err().to_string(),
        "invalid drain timeout duration: invalid local message"
    );
}

#[test]
fn draining_ends_by_its_timeout() {
    let mut body = Incoming::empty();
    body.drain.timeout = Duration::from_secs(3600);
    let before = Instant::now();
    let deadline = body.drained_by().unwrap();
    assert!(deadline >= before + Duration::from_secs(3600));
    assert!(deadline <= Instant::now() + Duration::from_secs(3600));
    body.drain.timeout = Duration::MAX;
    let error = body.drained_by().unwrap_err();
    assert_eq!(error.kind(), ErrorKind::LocalMessage);
    assert_eq!(error.context, "invalid drain timeout duration");
}

#[test]
fn one_managed_lease_is_handed_out_at_a_time() {
    let mut permit = ManagedLeasePermit::new();
    let lease = || Leased { buffer: Box::new(b"leased bytes".to_vec()) };
    let segment = IncomingData::from_managed(lease(), 7..12, &mut permit).unwrap();
    assert!(segment.is_managed());
    assert!(permit.is_held());
    assert_eq!(segment.as_ref(), b"bytes");
    assert_eq!(segment.slice(1..3).as_ref(), b"yt");
    assert_eq!(
        IncomingData::from_managed(lease(), 0..1, &mut permit).unwrap_err().to_string(),
        "connection attempted to transfer multiple managed leases: internal invariant failure"
    );
    permit.release();
    for range in [0..13, std::ops::Range { start: 3, end: 2 }] {
        assert_eq!(
            IncomingData::from_managed(lease(), range, &mut permit).unwrap_err().to_string(),
            "managed incoming-data view lies outside initialized bytes: internal invariant failure"
        );
    }
    assert!(!permit.is_held());
}

#[test]
fn ranges_are_normalized() {
    assert_eq!(normalize_range(Edge::Unbounded, Edge::Unbounded, 5), 0..5);
    assert_eq!(normalize_range(Edge::Included(1), Edge::Included(3), 5), 1..4);
    assert_eq!(normalize_range(Edge::Excluded(1), Edge::Excluded(3), 5), 2..3);
}

#[test]
fn segments_are_shown_on_one_line_or_over_several() {
    let data = IncomingData::from_bytes(Bytes::from_static(b"secret"));
    assert_eq!(format!("{data:?}"), "IncomingData { length: 6, .. }");
    assert_eq!(format!("{data:#?}"), "IncomingData {\n    length: 6,\n    ..\n}");
}
