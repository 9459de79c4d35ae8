//! Bodies that are made of buffers, of other bodies and of streams.

use bytes::Bytes;
use http::HeaderMap;
use std::cell::Cell;
use std::collections::VecDeque;
use std::rc::Rc;
use vakya::body::combinator::{from_left, from_right, Either, MapError};
use vakya::body::frame::Frame;
use vakya::body::simple::{Empty, Full};
use vakya::body::size_hint::SizeHint;
use vakya::body::stream::{BodyDataStream, BodyStream, DataItem, StreamBody};
use vakya::body::{Buffer, TrailerHint};

#[test]
fn bounds_distinguish_unknown_exact_and_invalid_lengths() {
    for (lower, upper, exact) in [
        (0, None, None),
        (0, Some(0), Some(0)),
        (4, Some(9), None),
        (u64::MAX, Some(u64::MAX), Some(u64::MAX)),
    ] {
        assert_eq!(SizeHint::with_bounds(lower, upper).unwrap().exact(), exact);
    }
    assert!(SizeHint::with_bounds(1, Some(0)).is_err());
}

#[test]
fn size_hints_keep_their_bounds() {
    let hint = SizeHint::with_bounds(4, Some(9)).unwrap();
    assert_eq!((hint.lower(), hint.upper()), (4, Some(9)));
    assert_eq!(SizeHint::new(), SizeHint::default());
    assert_eq!(SizeHint::new().upper(), None);
    assert_eq!(
        SizeHint::with_bounds(1, Some(0)).unwrap_err().to_string(),
        "body size upper bound is below its lower bound: invalid local message"
    );
    assert_eq!(TrailerHint::default(), TrailerHint::MayHave);
}

#[test]
fn frames_hold_data_or_trailers() {
    let frame = Frame::data(vec![1u8, 2]);
    assert_eq!(frame.data_ref(), Some(&vec![1u8, 2]));
    assert!(frame.trailers_ref().is_none());
    let frame = frame.into_trailers().unwrap_err();
    let mapped = frame.map_data(|data| data.len());
    assert_eq!(mapped.into_data().unwrap(), 2);
    let trailers = Frame::<Vec<u8>>::trailers(HeaderMap::new());
    assert!(trailers.data_ref().is_none());
    let trailers = trailers.into_data().unwrap_err().map_data(|data| data.len());
    assert!(trailers.into_trailers().unwrap().is_empty());
}

#[test]
fn empty_is_permanently_complete() {
    let mut body = Empty::new();

    assert_eq!(body.size_hint(), SizeHint::with_exact(0));
    assert!(body.next_frame::<Bytes>().is_none());
    assert!(body.next_frame::<Bytes>().is_none());
    assert!(body.is_end_stream());
    assert_eq!(body.trailer_hint(), TrailerHint::Absent);
}

#[test]
fn full_bytes_transfers_one_frame() {
    let mut body = Full::new(Bytes::from_static(b"hello"));

    assert_eq!(body.size_hint(), SizeHint::with_exact(5));
    assert!(!body.is_end_stream());
    let data = body.next_frame().expect("missing frame").into_data().expect("missing data");
    assert_eq!(data.as_init(), b"hello");
    assert_eq!(body.size_hint(), SizeHint::with_exact(0));
    drop(data);
    assert!(body.is_end_stream());
    assert!(body.next_frame().is_none());
    assert!(body.next_frame().is_none());
}

#[test]
fn full_recycles_only_after_buffer_is_returned() {
    #[derive(Debug)]
    struct TrackedBuf {
        drops: Rc<Cell<usize>>,
    }
    impl Drop for TrackedBuf {
        fn drop(&mut self) {
            self.drops.set(self.drops.get() + 1);
        }
    }
    let drops = Rc::new(Cell::new(0));
    let mut body = Full::new(TrackedBuf { drops: Rc::clone(&drops) });

    let data = body.next_frame().expect("missing frame").into_data().expect("missing data");
    assert_eq!(drops.get(), 0);

    drop(data);
    assert_eq!(drops.get(), 1);
}

/// A body whose frames are there, and which counts what comes back.
struct TestBody {
    frame: Option<Result<Vec<u8>, &'static str>>,
    recycled: Rc<Cell<usize>>,
}

impl TestBody {
    fn data(data: &'static [u8], recycled: Rc<Cell<usize>>) -> Self {
        TestBody { frame: Some(Ok(data.to_vec())), recycled }
    }

    fn error(error: &'static str) -> Self {
        TestBody { frame: Some(Err(error)), recycled: Rc::new(Cell::new(0)) }
    }

    fn next_frame(&mut self) -> Result<Option<Frame<Vec<u8>>>, &'static str> {
        match self.frame.take() {
            Some(Ok(data)) => Ok(Some(Frame::data(data))),
            Some(Err(error)) => Err(error),
            None => Ok(None),
        }
    }

    fn size_hint(&self) -> SizeHint {
        match &self.frame {
            Some(Ok(data)) => SizeHint::with_exact(data.len() as u64),
            _ => SizeHint::new(),
        }
    }

    fn recycle(&mut self, data: Vec<u8>) {
        assert!(!data.as_init().is_empty());
        self.recycled.set(self.recycled.get() + 1);
    }
}

#[test]
fn either_supports_different_buffer_and_error_types() {
    let recycled = Rc::new(Cell::new(0));
    let mut left = TestBody::data(b"left", Rc::clone(&recycled));
    let data = from_left::<Vec<u8>, Bytes, &'static str, ()>(left.next_frame())
        .unwrap()
        .expect("missing frame")
        .into_data()
        .expect("missing data");
    assert_eq!(data.as_init(), b"left");
    let Either::Left(data) = data else {
        panic!("other variant")
    };
    left.recycle(data);
    assert_eq!(recycled.get(), 1);
    let mut right = Full::new(Bytes::from_static(b"right"));
    let data = from_right::<Vec<u8>, Bytes, &'static str, ()>(Ok(right.next_frame()))
        .unwrap()
        .expect("missing frame")
        .into_data()
        .expect("missing data");
    assert_eq!(data.as_init(), b"right");
    assert!(matches!(data, Either::Right(_)));
    let mut failed = TestBody::error("failure");
    assert!(matches!(
        from_left::<Vec<u8>, Bytes, &'static str, ()>(failed.next_frame()),
        Err(Either::Left("failure"))
    ));
}

#[test]
fn either_left_forwards_frames_length_and_recycling() {
    let recycled = Rc::new(Cell::new(0));
    let mut body: Either<TestBody, Empty> = Either::Left(TestBody::data(b"left", Rc::clone(&recycled)));
    let Either::Left(inner) = &mut body else {
        panic!("other variant")
    };
    assert_eq!(inner.size_hint(), SizeHint::with_exact(4));
    let data = from_left::<Vec<u8>, Bytes, &'static str, ()>(inner.next_frame())
        .unwrap()
        .expect("missing frame")
        .into_data()
        .expect("missing data");
    if let (Either::Left(inner), Either::Left(data)) = (&mut body, data) {
        inner.recycle(data);
    }
    assert_eq!(recycled.get(), 1);
}

#[test]
fn either_right_forwards_frames_length_and_recycling() {
    let recycled = Rc::new(Cell::new(0));
    let mut body: Either<Empty, TestBody> = Either::Right(TestBody::data(b"right", Rc::clone(&recycled)));
    let Either::Right(inner) = &mut body else {
        panic!("other variant")
    };
    assert_eq!(inner.size_hint(), SizeHint::with_exact(5));
    let data = from_right::<Bytes, Vec<u8>, (), &'static str>(inner.next_frame())
        .unwrap()
        .expect("missing frame")
        .into_data()
        .expect("missing data");
    if let (Either::Right(inner), Either::Right(data)) = (&mut body, data) {
        inner.recycle(data);
    }
    assert_eq!(recycled.get(), 1);
}

#[test]
fn either_of_one_type_unwraps() {
    assert_eq!(Either::<u8, u8>::Left(3).into_inner(), 3);
    assert_eq!(Either::<u8, u8>::Right(4).into_inner(), 4);
}

#[test]
fn map_error_changes_only_the_error() {
    let mut body = MapError::new(TestBody::error("body failed"), |error: &'static str| error.len());

    assert_eq!(body.get_ref().size_hint(), SizeHint::new());
    let result = body.get_mut().next_frame();
    assert!(matches!(
        body.map_result(result),
        Err(length) if length == "body failed".len()
    ));
}

#[test]
fn map_error_forwards_recycling() {
    let recycled = Rc::new(Cell::new(0));
    let mut body = MapError::new(
        TestBody::data(b"data", Rc::clone(&recycled)),
        |error: &'static str| error,
    );

    let result = body.get_mut().next_frame();
    let data = body
        .map_result(result)
        .unwrap()
        .expect("missing frame")
        .into_data()
        .expect("missing data");
    body.get_mut().recycle(data);
    assert_eq!(recycled.get(), 1);
    assert!(body.into_inner().frame.is_none());
}

#[test]
fn composition_preserves_metadata_and_empty_data_is_not_end_of_stream() {
    let mut mapped = MapError::new(Full::new(Vec::<u8>::new()), |error: ()| error);
    assert_eq!(mapped.get_ref().size_hint().exact(), Some(0));
    assert_eq!(mapped.get_ref().trailer_hint(), TrailerHint::Absent);
    assert!(!mapped.get_ref().is_end_stream());
    let result = from_left::<Vec<u8>, Bytes, (), ()>(Ok(mapped.get_mut().next_frame()));
    let data = result.unwrap().unwrap().into_data().unwrap();
    assert!(data.as_init().is_empty());
    assert!(mapped.get_ref().is_end_stream());
    assert!(mapped.get_mut().next_frame().is_none());
}

struct Frames(VecDeque<Result<Frame<Vec<u8>>, &'static str>>);

/// Yields the next frame of a stream body.
fn next(body: &mut StreamBody<Frames>) -> Result<Option<Frame<Vec<u8>>>, &'static str> {
    let item = if body.is_end_stream() { None } else { body.stream.0.pop_front() };
    body.next_frame(item)
}

#[test]
fn item_counts_are_not_byte_hints_and_errors_fuse_the_adapter() {
    let mut body = StreamBody::new(Frames(VecDeque::from([
        Ok(Frame::data(vec![1; 8])),
        Err("source failed"),
        Ok(Frame::data(vec![2])),
    ])));
    assert_eq!(body.size_hint(), SizeHint::new());
    assert_eq!(next(&mut body).unwrap().unwrap().into_data().unwrap().len(), 8);
    assert_eq!(next(&mut body).unwrap_err(), "source failed");
    assert!(body.is_end_stream());
    assert_eq!(body.trailer_hint(), TrailerHint::Absent);
    assert!(next(&mut body).unwrap().is_none());
    assert_eq!(body.into_inner().0.len(), 1);
}

#[test]
fn frame_stream_preserves_trailers_and_data_stream_discards_them() {
    let frames = || {
        Frames(VecDeque::from([
            Ok(Frame::data(vec![])),
            Ok(Frame::trailers(HeaderMap::new())),
            Err("late error"),
        ]))
    };
    let mut stream = BodyStream::new(StreamBody::new(frames()));
    let mut advance = || {
        let result = next(&mut stream.body);
        stream.next(result)
    };
    assert!(advance().unwrap().unwrap().data_ref().is_some());
    assert!(advance().unwrap().unwrap().trailers_ref().is_some());
    assert_eq!(advance().unwrap().unwrap_err(), "late error");
    assert!(advance().is_none());

    let mut stream = BodyDataStream::new(StreamBody::new(frames()));
    let mut advance = || loop {
        let result = next(&mut stream.frames.body);
        match stream.next(result) {
            DataItem::Data(data) => return Some(Ok(data)),
            DataItem::Failed(error) => return Some(Err(error)),
            DataItem::End => return None,
            DataItem::Again => {}
        }
    };
    assert_eq!(advance().unwrap().unwrap(), Vec::<u8>::new());
    assert_eq!(advance().unwrap().unwrap_err(), "late error");
    assert!(advance().is_none());
}
