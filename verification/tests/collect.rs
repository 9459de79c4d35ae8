//! Bodies gathered within a limit.

use http::header::CONTENT_TYPE;
use http::{HeaderMap, HeaderValue};
use std::cell::Cell;
use std::collections::VecDeque;
use std::rc::Rc;
use vakya::body::collect::{
    checked_total, reserve_for_append, shortfall, AggregateError, CollectError, Collected, Collector,
};
use vakya::body::frame::Frame;
use vakya::body::size_hint::SizeHint;
use vakya::body::{Buffer, TrailerHint};
use vakya::future::WorkBudget;

struct TestData {
    bytes: &'static [u8],
    recycled: Rc<Cell<usize>>,
}

impl Buffer for TestData {
    fn as_init(&self) -> &[u8] {
        self.bytes
    }
}

struct TestBody {
    frames: VecDeque<Result<Frame<TestData>, &'static str>>,
    length: SizeHint,
    trailers: TrailerHint,
    recycled: Rc<Cell<usize>>,
    polls: Rc<Cell<usize>>,
}

impl TestBody {
    fn new(
        length: SizeHint,
        frames: impl IntoIterator<Item = Result<Frame<TestData>, &'static str>>,
    ) -> Self {
        Self {
            frames: frames.into_iter().collect(),
            length,
            trailers: TrailerHint::MayHave,
            recycled: Rc::new(Cell::new(0)),
            polls: Rc::new(Cell::new(0)),
        }
    }

    fn data(&self, bytes: &'static [u8]) -> TestData {
        TestData { bytes, recycled: Rc::clone(&self.recycled) }
    }

    fn next_frame(&mut self) -> Result<Option<Frame<TestData>>, &'static str> {
        self.polls.set(self.polls.get() + 1);
        self.frames.pop_front().transpose()
    }

    fn recycle(&mut self, data: TestData) {
        data.recycled.set(data.recycled.get() + 1);
    }
}

/// Collects a body, and stops where others get their turn if `once` is set.
fn drive(
    body: &mut TestBody,
    max_bytes: usize,
    once: bool,
) -> Option<Result<Collected, CollectError<&'static str>>> {
    let mut collector = match Collector::new(body.length, body.trailers, max_bytes) {
        Ok(collector) => collector,
        Err(error) => return Some(Err(error)),
    };
    let mut budget = WorkBudget::new();
    loop {
        if budget.step() && once {
            return None;
        }
        let frame = match body.next_frame() {
            Ok(Some(frame)) => frame,
            Ok(None) => return Some(collector.finish()),
            Err(error) => return Some(Err(CollectError::Body(error))),
        };
        let (data, result) = collector.take(frame);
        if let Some(data) = data {
            body.recycle(data);
        }
        if let Err(error) = result {
            return Some(Err(error));
        }
    }
}

fn collect(body: &mut TestBody, max_bytes: usize) -> Result<Collected, CollectError<&'static str>> {
    drive(body, max_bytes, false).unwrap()
}

#[test]
fn empty_exact_and_multi_frame_bodies_respect_limits() {
    let mut empty = TestBody::new(SizeHint::with_exact(0), []);
    let collected = collect(&mut empty, 0).unwrap();
    assert!(collected.as_ref().is_empty());

    let mut body = TestBody::new(SizeHint::with_exact(5), []);
    body.frames.push_back(Ok(Frame::data(body.data(b"ab"))));
    body.frames.push_back(Ok(Frame::data(body.data(b"cde"))));
    let recycled = Rc::clone(&body.recycled);
    let collected = collect(&mut body, 5).unwrap();

    assert_eq!(collected.as_ref(), b"abcde");
    assert_eq!(recycled.get(), 2);
}

#[test]
fn trailers_are_returned_separately() {
    let mut trailers = HeaderMap::new();
    trailers.insert(CONTENT_TYPE, HeaderValue::from_static("text/plain"));
    let mut body = TestBody::new(SizeHint::with_exact(0), [Ok(Frame::trailers(trailers))]);

    let collected = collect(&mut body, 0).unwrap();
    assert_eq!(collected.trailers().unwrap()[CONTENT_TYPE], "text/plain");
    let (bytes, trailers) = collected.into_parts();
    assert!(bytes.is_empty());
    assert_eq!(trailers.unwrap().len(), 1);
}

#[test]
fn over_limit_frame_is_recycled_and_stops_polling() {
    let mut body = TestBody::new(SizeHint::new(), []);
    body.frames.push_back(Ok(Frame::data(body.data(b"too big"))));
    body.frames.push_back(Err("must not poll"));
    let recycled = Rc::clone(&body.recycled);
    let polls = Rc::clone(&body.polls);

    let error = collect(&mut body, 3).unwrap_err();

    assert!(matches!(error, CollectError::LimitExceeded { limit: 3 }));
    assert_eq!(recycled.get(), 1);
    assert_eq!(polls.get(), 1);
}

#[test]
fn declared_over_limit_body_is_not_polled() {
    let mut body = TestBody::new(SizeHint::with_exact(8), [Err("must not poll")]);

    assert!(matches!(
        collect(&mut body, 7),
        Err(CollectError::LimitExceeded { limit: 7 })
    ));
    assert_eq!(body.polls.get(), 0);
}

#[test]
fn body_error_and_invalid_sequence_are_terminal() {
    let mut failed = TestBody::new(SizeHint::new(), [Err("broken")]);
    assert!(matches!(collect(&mut failed, 8), Err(CollectError::Body("broken"))));

    let mut invalid = TestBody::new(SizeHint::new(), []);
    invalid.frames.push_back(Ok(Frame::trailers(HeaderMap::new())));
    invalid.frames.push_back(Ok(Frame::data(invalid.data(b"late"))));
    let recycled = Rc::clone(&invalid.recycled);
    assert!(matches!(collect(&mut invalid, 8), Err(CollectError::InvalidSequence)));
    assert_eq!(recycled.get(), 1);
}

#[test]
fn aggregate_length_checks_overflow_before_the_limit() {
    assert!(matches!(
        checked_total(usize::MAX, 1, usize::MAX),
        Err(AggregateError::Overflow)
    ));
    assert!(matches!(
        checked_total(3, 2, 4),
        Err(AggregateError::Limit { limit: 4 })
    ));
    assert_eq!(checked_total(3, 2, 5).unwrap(), 5);
}

#[test]
fn declared_bounds_are_checked_against_data_and_reclaimed_on_error() {
    for (hint, expected_polls) in [
        (SizeHint::with_exact(3), 2),
        (SizeHint::with_exact(1), 1),
        (SizeHint::with_bounds(0, Some(1)).unwrap(), 1),
        (SizeHint::with_bounds(3, None).unwrap(), 2),
    ] {
        let mut body = TestBody::new(hint, []);
        body.frames.push_back(Ok(Frame::data(body.data(b"ab"))));
        assert!(matches!(collect(&mut body, 8), Err(CollectError::LengthMismatch)));
        assert_eq!(body.recycled.get(), 1);
        assert_eq!(body.polls.get(), expected_polls);
    }
}

#[test]
fn forbidden_and_duplicate_trailers_stop_collection() {
    let mut body = TestBody::new(SizeHint::new(), [Ok(Frame::trailers(HeaderMap::new()))]);
    body.trailers = TrailerHint::Absent;
    assert!(matches!(
        collect(&mut body, 0),
        Err(CollectError::UnexpectedTrailers)
    ));
    assert_eq!(body.polls.get(), 1);

    let mut body = TestBody::new(
        SizeHint::new(),
        [
            Ok(Frame::trailers(HeaderMap::new())),
            Ok(Frame::trailers(HeaderMap::new())),
            Err("must not poll"),
        ],
    );
    assert!(matches!(collect(&mut body, 0), Err(CollectError::InvalidSequence)));
    assert_eq!(body.polls.get(), 2);
}

#[test]
fn ready_empty_frames_yield_and_are_reclaimed_before_cancellation() {
    let mut body = TestBody::new(SizeHint::with_exact(0), []);
    for _ in 0..128 {
        body.frames.push_back(Ok(Frame::data(body.data(b""))));
    }
    let polls = Rc::clone(&body.polls);
    let recycled = Rc::clone(&body.recycled);
    assert!(drive(&mut body, 0, true).is_none());
    assert!(polls.get() > 0 && polls.get() < 128);
    assert_eq!(recycled.get(), polls.get());
    assert_eq!(body.frames.len(), 128 - polls.get());
    assert_eq!(recycled.get(), polls.get());
}

#[test]
fn unknown_length_collection_grows_geometrically_within_limit() {
    let mut data = Vec::new();
    let mut capacity_changes = 0;
    for length in 1..=64 {
        let before = data.capacity();
        reserve_for_append(&mut data, length, 64).unwrap();
        if data.capacity() != before {
            capacity_changes += 1;
        }
        data.push(0);
        assert!(data.capacity() >= data.len());
    }

    assert!(capacity_changes <= 7);
    assert!(data.capacity() <= 64);
}

#[test]
fn room_is_asked_for_only_where_it_is_short() {
    assert_eq!(shortfall(8, 4, 8, 64), None);
    assert_eq!(shortfall(8, 8, 9, 64), Some(8));
    assert_eq!(shortfall(8, 8, 40, 64), Some(32));
    assert_eq!(shortfall(48, 40, 49, 64), Some(24));
    assert_eq!(shortfall(0, 0, 0, 0), None);
    let mut data = b"kept".to_vec();
    assert!(reserve_for_append(&mut data, 4, 4).is_ok());
    assert_eq!(data, b"kept");
}

#[test]
fn collection_errors_say_what_went_wrong() {
    assert_eq!(
        CollectError::<()>::LimitExceeded { limit: 1024 }.to_string(),
        "body exceeds collection limit of 1024 bytes"
    );
    assert_eq!(CollectError::Body("secret").to_string(), "body failed while being collected");
    assert_eq!(
        CollectError::<()>::LengthOverflow.to_string(),
        "collected body length overflowed"
    );
    assert_eq!(
        CollectError::<()>::LengthMismatch.to_string(),
        "body length did not match its size hint"
    );
    assert_eq!(
        CollectError::<()>::UnexpectedTrailers.to_string(),
        "body produced unexpected trailers"
    );
    assert_eq!(
        CollectError::<()>::InvalidSequence.to_string(),
        "body emitted an invalid frame sequence"
    );
    let refused = Vec::<u8>::new().try_reserve_exact(usize::MAX).unwrap_err();
    assert_eq!(
        CollectError::<()>::Allocation(refused).to_string(),
        "could not allocate bounded body storage"
    );
}

#[test]
fn storage_that_no_machine_has_is_refused() {
    let hint = SizeHint::with_exact(isize::MAX as u64 + 1);
    assert!(matches!(
        Collector::new::<()>(hint, TrailerHint::MayHave, usize::MAX),
        Err(CollectError::Allocation(_))
    ));
}

#[test]
fn no_bytes_are_collected_without_memory() {
    let mut collector =
        Collector::new::<()>(SizeHint::with_exact(0), TrailerHint::Absent, 0).unwrap();
    let (data, taken) = collector.take::<Vec<u8>, ()>(Frame::data(Vec::new()));
    assert!(data.unwrap().is_empty());
    taken.unwrap();
    assert!(collector.finish::<()>().unwrap().bytes().is_empty());
    let mut refused: Vec<u8> = Vec::new();
    let error = refused.try_reserve_exact(usize::MAX).unwrap_err();
    let hint = SizeHint::with_exact(4);
    let started =
        Collector::new_reserved::<()>(Vec::new(), hint, TrailerHint::Absent, 4, Err(error));
    assert!(matches!(started.unwrap_err(), CollectError::Allocation(_)));
}
