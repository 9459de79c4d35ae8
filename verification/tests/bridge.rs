//! Between the frames of a body and the bytes of a connection.

use bytes::{Bytes, BytesMut};
use http::{HeaderMap, HeaderValue};
use std::collections::VecDeque;
use vakya::body::collect::{Collected, Collector};
use vakya::body::frame::Frame;
use vakya::body::incoming::{Incoming, IncomingData};
use vakya::body::pipe::{OfferError, Rendezvous, Wait};
use vakya::body::size_hint::SizeHint;
use vakya::body::{Buffer, TrailerHint};
use vakya::error::{Error, ErrorKind, Foreign, Payload, Source};
use vakya::future::WorkBudget;
use vakya::io::recv::{PendingRead, ReadStart, ReadStatus, RecvBuffer};
use vakya::proto::h1::bridge::{
    incoming, map_send_error, BodyReceiver, BodySender, ReceiveAction, ReceiveEnd, SendAction,
    SendBodyError, SendStats, Told,
};
use vakya::proto::h1::decode::{BodyDecoder, DecodeOutcome};
use vakya::proto::h1::encode::{BodyEncoder, BodyMetadata, EncodeError, EncodeLimits, Memory};
use vakya::proto::h1::BodyMode;

const LIMITS: EncodeLimits = EncodeLimits { max_head_bytes: 4096, max_trailer_bytes: 4096 };

type Pipe = Rendezvous<Frame<IncomingData>, Error, ()>;

/// A transport that brings one piece of input after the other.
struct Reader {
    pieces: VecDeque<Bytes>,
    calls: usize,
}

impl Reader {
    fn new(pieces: impl IntoIterator<Item = Bytes>) -> Self {
        Reader { pieces: pieces.into_iter().collect(), calls: 0 }
    }

    fn read(&mut self, buffer: RecvBuffer) -> (Result<ReadStatus, Error>, RecvBuffer) {
        let (mut bytes, room, pending) = submitted(buffer.read(false));
        let count = self.fill(&mut bytes, room);
        pending.complete(bytes, Ok(count))
    }

    fn fill(&mut self, bytes: &mut BytesMut, room: usize) -> usize {
        self.calls += 1;
        let Some(mut piece) = self.pieces.pop_front() else {
            return 0;
        };
        let count = piece.len().min(room);
        bytes.extend_from_slice(&piece.split_to(count));
        if !piece.is_empty() {
            self.pieces.push_front(piece);
        }
        count
    }
}

fn submitted(start: ReadStart) -> (BytesMut, usize, PendingRead) {
    match start {
        ReadStart::Submit { bytes, start, end, pending } => (bytes, end - start, pending),
        _ => panic!("read was not submitted"),
    }
}

/// One receive activity and the body that it feeds.
struct Activity {
    receiver: BodyReceiver,
    buffer: Option<RecvBuffer>,
    pipe: Pipe,
    body: Incoming,
    end: Option<ReceiveEnd>,
}

impl Activity {
    fn new(mode: BodyMode, buffer: RecvBuffer) -> Self {
        Activity {
            receiver: BodyReceiver::new(BodyDecoder::new(mode)),
            buffer: Some(buffer),
            pipe: Pipe::new(),
            body: incoming(mode),
            end: None,
        }
    }

    fn buffer(&mut self) -> &mut RecvBuffer {
        self.buffer.as_mut().unwrap()
    }

    /// Asks the body for a frame, where the rendezvous has an answer.
    fn next_frame(&mut self) -> Wait<Result<Option<Frame<IncomingData>>, Error>> {
        if self.body.is_end_stream() {
            return Wait::Ready(self.body.next_frame(Ok(None)));
        }
        match self.pipe.take(()).0 {
            Wait::Pending => Wait::Pending,
            Wait::Ready(taken) => Wait::Ready(self.body.next_frame(taken)),
        }
    }

    fn finish(&mut self, end: ReceiveEnd, told: Told) {
        match told {
            Told::Nothing => {}
            Told::Close => {
                self.pipe.close();
            }
            Told::Fail(error) => {
                self.pipe.fail(error);
            }
        }
        self.end = Some(end);
    }

    /// Runs the activity until it waits for the body or ends, and hands it the
    /// answer to an offer that was taken.
    fn run(&mut self, reader: &mut Reader, action: ReceiveAction) {
        let mut action = action;
        loop {
            action = match action {
                ReceiveAction::Demand => match self.pipe.demand(()) {
                    Wait::Pending => return,
                    Wait::Ready(demand) => {
                        let mut buffer = self.buffer.take().unwrap();
                        let action = 
                            self.receiver.demanded(&mut buffer, Some(demand), &mut self.pipe);
                        self.buffer = Some(buffer);
                        action
                    }
                },
                ReceiveAction::Read => {
                    let (result, buffer) = reader.read(self.buffer.take().unwrap());
                    self.buffer = Some(buffer);
                    self.receiver.read_completed(result, self.pipe.is_abandoned())
                }
                ReceiveAction::Offer(frame) => match self.pipe.offer(frame, ()).0 {
                    Wait::Pending => return,
                    Wait::Ready(answer) => self.receiver.offered(Some(answer)),
                },
                ReceiveAction::End { end, told } => return self.finish(end, told),
            };
        }
    }

    /// Goes on with the offer that waits, or with another round.
    fn resume(&mut self, reader: &mut Reader, offering: bool) {
        let action = if offering {
            match self.pipe.offered(()) {
                Wait::Pending => return,
                Wait::Ready(answer) => self.receiver.offered(Some(answer)),
            }
        } else {
            self.receiver.start()
        };
        self.run(reader, action);
    }
}

fn pieces(wire: &'static [u8], width: usize) -> Vec<Bytes> {
    wire.chunks(width).map(Bytes::copy_from_slice).collect()
}

/// Collects the body of a receive activity.
fn collect(activity: &mut Activity, reader: &mut Reader) -> Result<Collected, Error> {
    let mut collector =
        Collector::new::<Error>(activity.body.size_hint(), activity.body.trailer_hint(), 16).unwrap();
    let mut offering = false;
    loop {
        match activity.next_frame() {
            Wait::Pending => {
                activity.resume(reader, offering);
                offering = activity.end.is_none();
            }
            Wait::Ready(Ok(Some(frame))) => {
                let (_, taken) = collector.take::<IncomingData, Error>(frame);
                taken.unwrap();
                activity.resume(reader, true);
                offering = false;
            }
            Wait::Ready(Ok(None)) => return Ok(collector.finish::<Error>().unwrap()),
            Wait::Ready(Err(error)) => return Err(error),
        }
    }
}

#[test]
fn fixed_chunked_and_eof_bodies_preserve_payload_trailers_and_read_ahead() {
    for (mode, wire, expected, remainder) in [
        (
            BodyMode::Fixed(5),
            b"helloNEXT".as_slice(),
            b"hello".as_slice(),
            b"NEXT".as_slice(),
        ),
        (
            BodyMode::Chunked,
            b"4\r\nWiki\r\n5\r\npedia\r\n0\r\nx-end: yes\r\n\r\nNEXT".as_slice(),
            b"Wikipedia".as_slice(),
            b"NEXT".as_slice(),
        ),
        (
            BodyMode::UntilEof,
            b"hello".as_slice(),
            b"hello".as_slice(),
            b"".as_slice(),
        ),
    ] {
        for width in [1, 3, wire.len()] {
            let mut reader = Reader::new(pieces(wire, width));
            let mut activity = Activity::new(mode, RecvBuffer::new(128, 256).unwrap());
            let collected = collect(&mut activity, &mut reader).unwrap();
            assert!(matches!(activity.end, Some(ReceiveEnd::Complete)));
            assert_eq!(collected.as_ref(), expected);
            if mode == BodyMode::Chunked {
                assert_eq!(collected.trailers().unwrap()["x-end"], "yes");
            }
            // Some read-ahead may still be in the transport when fragmented.
            let mut buffer = activity.buffer.take().unwrap();
            let mut next = buffer.take_all().to_vec();
            while next.len() < remainder.len() {
                let (result, mut returned) = reader.read(buffer);
                assert!(matches!(result.unwrap(), ReadStatus::Data(_)));
                next.extend_from_slice(&returned.take_all());
                buffer = returned;
            }
            assert_eq!(next, remainder);
            assert!(activity.body.is_end_stream());
        }
    }
}

#[test]
fn demand_bounds_reads_and_fixed_completion_needs_no_extra_poll() {
    let mut reader = Reader::new([Bytes::from_static(b"abc"), Bytes::from_static(b"def")]);
    let mut activity = Activity::new(BodyMode::Fixed(6), RecvBuffer::new(3, 6).unwrap());
    activity.resume(&mut reader, false);
    assert_eq!(reader.calls, 0);
    // Canceling the wait retains one demand; it does not abandon the body.
    assert!(matches!(activity.next_frame(), Wait::Pending));
    activity.pipe.consumer_left();
    activity.resume(&mut reader, false);
    assert_eq!(reader.calls, 1);
    activity.resume(&mut reader, true);
    assert_eq!(reader.calls, 1);
    let Wait::Ready(Ok(Some(first))) = activity.next_frame() else {
        panic!("missing first frame")
    };
    let first = first.into_data().unwrap();
    activity.resume(&mut reader, true);
    assert_eq!(reader.calls, 1);
    assert!(matches!(activity.next_frame(), Wait::Pending));
    activity.resume(&mut reader, false);
    assert_eq!(reader.calls, 2);
    let Wait::Ready(Ok(Some(second))) = activity.next_frame() else {
        panic!("missing second frame")
    };
    assert_eq!(second.into_data().unwrap().as_ref(), b"def");
    // Drop immediately after the final data, without asking for the end.
    activity.pipe.abandon();
    activity.resume(&mut reader, true);
    assert!(matches!(activity.end, Some(ReceiveEnd::Complete)));
    assert_eq!(first.as_ref(), b"abc");
}

#[test]
fn abandoning_pending_receive_waits_for_completion_and_returns_storage() {
    for success in [false, true] {
        let mut activity = Activity::new(BodyMode::Fixed(1), RecvBuffer::new(8, 16).unwrap());
        assert!(matches!(activity.next_frame(), Wait::Pending));
        let mut buffer = activity.buffer.take().unwrap();
        assert!(matches!(activity.receiver.start(), ReceiveAction::Demand));
        let Wait::Ready(demand) = activity.pipe.demand(()) else {
            panic!("the body was asked for a frame")
        };
        let action = 
            activity.receiver.demanded(&mut buffer, Some(demand), &mut activity.pipe);
        assert!(matches!(action, ReceiveAction::Read));
        let (mut bytes, _, pending) = submitted(buffer.read(false));
        activity.pipe.abandon();
        let (result, buffer) = if success {
            bytes.extend_from_slice(b"x");
            pending.complete(bytes, Ok(1))
        } else {
            pending.complete(bytes, Err(karmaio::runtime::operation_canceled()))
        };
        let action = activity.receiver.read_completed(result, activity.pipe.is_abandoned());
        assert!(matches!(
            action,
            ReceiveAction::End { end: ReceiveEnd::Abandoned, told: Told::Nothing }
        ));
        assert_eq!(buffer.bytes(), if success { b"x".as_slice() } else { b"".as_slice() });
    }
}

#[test]
fn canceling_an_offer_or_dropping_the_activity_never_reports_clean_eof() {
    for explicit in [false, true] {
        let mut reader = Reader::new([Bytes::from_static(b"payload")]);
        let mut activity = Activity::new(BodyMode::Fixed(7), RecvBuffer::new(8, 16).unwrap());
        assert!(matches!(activity.next_frame(), Wait::Pending));
        activity.resume(&mut reader, false);
        activity.pipe.withdraw();
        if explicit {
            let ReceiveAction::End { end, told } = activity.receiver.offered(None) else {
                panic!("offer cancellation did not settle")
            };
            assert!(
                matches!(&end, ReceiveEnd::Failed(error) if error.kind() == ErrorKind::Canceled)
            );
            activity.finish(end, told);
        } else {
            activity.pipe.disconnect();
        }
        let Wait::Ready(Err(error)) = activity.next_frame() else {
            panic!("activity loss was hidden")
        };
        assert_eq!(
            error.kind(),
            if explicit { ErrorKind::Canceled } else { ErrorKind::Closed }
        );
        assert!(matches!(activity.next_frame(), Wait::Ready(Ok(None))));
    }
}

#[test]
fn framing_failure_reaches_incoming_with_its_original_source() {
    for (mode, wire) in [
        (BodyMode::Fixed(3), b"x".as_slice()),
        (BodyMode::Chunked, b"oops\r\n".as_slice()),
    ] {
        let mut reader = Reader::new([Bytes::copy_from_slice(wire)]);
        let mut activity = Activity::new(mode, RecvBuffer::new(16, 32).unwrap());
        let error = collect(&mut activity, &mut reader).unwrap_err();
        let Some(ReceiveEnd::Failed(failure)) = &activity.end else {
            panic!("the activity did not fail")
        };
        assert_eq!(failure.kind(), ErrorKind::InvalidMessage);
        assert!(matches!(error.source(), Some(Source::Decode(_))));
        assert!(activity.body.is_end_stream());
    }
}

#[test]
fn canceled_demand_fails_and_abandoned_demand_does_not() {
    let mut receiver = BodyReceiver::new(BodyDecoder::new(BodyMode::Fixed(1)));
    let mut buffer = RecvBuffer::new(4, 8).unwrap();
    let mut pipe = Pipe::new();
    let ReceiveAction::End { end: ReceiveEnd::Failed(error), told: Told::Fail(told) } =
        receiver.demanded(&mut buffer, None, &mut pipe)
    else {
        panic!("cancellation did not fail the body")
    };
    assert!(error.is_canceled() && told.is_canceled());
    pipe.abandon();
    let Wait::Ready(demand) = pipe.demand(()) else { panic!("abandonment unanswered") };
    assert!(matches!(
        receiver.demanded(&mut buffer, Some(demand), &mut pipe),
        ReceiveAction::End { end: ReceiveEnd::Abandoned, told: Told::Nothing }
    ));
}

/// Receives a body of two chunks that is drained within a budget.
fn drain(limit: u64, allowance: u64, width: usize) -> (Result<Collected, Error>, Activity) {
    let wire = b"1\r\na\r\n1\r\nb\r\n0\r\n\r\n";
    assert_eq!(wire.len(), 17);
    let mut reader = Reader::new(pieces(wire, width));
    let mut activity = Activity::new(BodyMode::Chunked, RecvBuffer::new(32, 64).unwrap());
    activity.pipe.drain_budget(limit, allowance);
    let collected = collect(&mut activity, &mut reader);
    (collected, activity)
}

#[test]
fn draining_within_the_budget_completes() {
    for width in [1, 4, 17] {
        let (collected, activity) = drain(2, 15, width);
        assert_eq!(collected.unwrap().as_ref(), b"ab");
        assert!(matches!(activity.end, Some(ReceiveEnd::Complete)));
        assert_eq!(activity.pipe.drain_remaining, Some((0, 0)));
    }
}

#[test]
fn draining_is_bounded_by_the_bytes_of_the_wire() {
    for width in [1, 4, 17] {
        for allowance in [0, 3, 9, 14] {
            let (collected, activity) = drain(2, allowance, width);
            let error = collected.unwrap_err();
            assert_eq!(error.kind(), ErrorKind::Limit);
            assert_eq!(error.context, "body drain wire limit exceeded");
            assert!(matches!(activity.end, Some(ReceiveEnd::Abandoned)));
        }
    }
}

#[test]
fn draining_is_bounded_by_the_payload() {
    for width in [1, 4, 17] {
        for limit in [0, 1] {
            let (collected, activity) = drain(limit, 64, width);
            let error = collected.unwrap_err();
            assert_eq!(error.kind(), ErrorKind::Limit);
            assert_eq!(error.context, "body drain payload limit exceeded");
            assert!(matches!(activity.end, Some(ReceiveEnd::Abandoned)));
        }
    }
}

#[test]
fn a_charge_comes_before_input_is_used_up() {
    let mut reader = Reader::new([Bytes::from_static(b"abcdef")]);
    let (_, mut buffer) = reader.read(RecvBuffer::new(8, 16).unwrap());
    let mut pipe = Pipe::new();
    pipe.drain_budget(3, 1);
    let action = BodyReceiver::act_charged(
        Ok(DecodeOutcome::Data { payload: 1..3, consumed: 4 }),
        &mut buffer,
        &mut pipe,
    );
    let ReceiveAction::Offer(frame) = action else { panic!("the payload was not offered") };
    assert_eq!(frame.into_data().unwrap().as_ref(), b"bc");
    assert_eq!(pipe.drain_remaining, Some((0, 1)));
    assert_eq!(buffer.bytes(), b"ef");
    let ReceiveAction::End { end: ReceiveEnd::Abandoned, told: Told::Fail(error) } =
        BodyReceiver::act_charged(Ok(DecodeOutcome::End { consumed: 1 }), &mut buffer, &mut pipe)
    else {
        panic!("the budget was exceeded")
    };
    assert_eq!(error.kind(), ErrorKind::Limit);
    assert_eq!(buffer.bytes(), b"ef");
    assert_eq!(pipe.drain_remaining, Some((0, 1)));
}

#[test]
fn closed_handoff_ends_the_activity() {
    let receiver = BodyReceiver::new(BodyDecoder::new(BodyMode::Fixed(1)));
    let frame = Frame::data(IncomingData::from_bytes(Bytes::from_static(b"x")));
    let ReceiveAction::End { end: ReceiveEnd::Failed(error), told: Told::Nothing } =
        receiver.offered(Some(Err(OfferError::Closed(frame))))
    else {
        panic!("closed handoff went on")
    };
    assert_eq!(error.kind(), ErrorKind::Closed);
    assert_eq!(error.context, "body handoff closed");
}

#[test]
fn outcomes_beyond_the_input_are_refused() {
    let mut buffer = RecvBuffer::new(4, 8).unwrap();
    for outcome in [
        DecodeOutcome::NeedMore { consumed: 1 },
        DecodeOutcome::Data { payload: 0..1, consumed: 1 },
        DecodeOutcome::End { consumed: 1 },
    ] {
        let ReceiveAction::End { end: ReceiveEnd::Failed(error), .. } =
            BodyReceiver::act(Ok(outcome), &mut buffer)
        else {
            panic!("a range beyond the input was accepted")
        };
        assert_eq!(error.kind(), ErrorKind::Internal);
    }
}

#[test]
fn framing_announces_bodies() {
    assert!(incoming(BodyMode::Empty).is_end_stream());
    assert!(incoming(BodyMode::Fixed(0)).is_end_stream());
    let fixed = incoming(BodyMode::Fixed(7));
    assert_eq!(fixed.size_hint().exact(), Some(7));
    assert_eq!(fixed.trailer_hint(), TrailerHint::Absent);
    let chunked = incoming(BodyMode::Chunked);
    assert_eq!(chunked.size_hint().upper(), None);
    assert_eq!(chunked.trailer_hint(), TrailerHint::MayHave);
    assert_eq!(incoming(BodyMode::UntilEof).trailer_hint(), TrailerHint::Absent);
}

/// A body of frames that are there from the start.
struct TestBody {
    frames: VecDeque<Result<Frame<Bytes>, &'static str>>,
    recycled: usize,
}

/// Output that becomes visible when it is flushed.
#[derive(Default)]
struct Output {
    staged: Vec<u8>,
    visible: Vec<u8>,
    flushes: usize,
}

impl Output {
    fn write(&mut self, parts: &[&[u8]]) -> usize {
        let mut count = 0;
        for part in parts {
            self.staged.extend_from_slice(part);
            count += part.len();
        }
        count
    }

    fn flush(&mut self) {
        self.flushes += 1;
        self.visible.append(&mut self.staged);
    }
}

/// Sends a body whose frames are ready, and yields when others get their turn.
fn send(
    output: &mut Output,
    body: &mut TestBody,
    encoder: BodyEncoder,
) -> Result<SendStats, SendBodyError<&'static str>> {
    let mut sender = BodySender::new(encoder);
    let mut work = WorkBudget::new();
    loop {
        if work.step() && sender.flushes() {
            output.flush();
            sender.flushed::<&'static str>(Ok(()))?;
        }
        let next = body.frames.pop_front().transpose();
        match sender.produced(Some(next), Memory::Asked) {
            SendAction::WriteData { framing, data } => {
                let count =
                    output.write(&[framing.prefix.as_init(), &data, framing.suffix.as_init()]);
                body.recycled += 1;
                sender.data_written(Ok(count))?;
            }
            SendAction::WriteTrailers(bytes) => {
                let count = output.write(&[&bytes]);
                sender.trailers_written(Ok(count))?;
            }
            SendAction::WriteEnd(bytes) => {
                let count = output.write(&[&bytes]);
                return sender.end_written(Ok(count));
            }
            SendAction::Done(stats) => return Ok(stats),
            SendAction::Refuse { data, error } => {
                drop(data);
                body.recycled += 1;
                return Err(SendBodyError::Encode(error));
            }
            SendAction::Fail(error) => return Err(error),
        }
    }
}

#[test]
fn trailers_without_memory_are_not_sent() {
    let metadata = BodyMetadata::unknown();
    for (memory, sent) in [(Memory::Granted, true), (Memory::Refused, false)] {
        let encoder = BodyEncoder::new(BodyMode::Chunked, metadata, LIMITS).unwrap();
        let mut sender = BodySender::new(encoder);
        let next: Result<Option<Frame<Bytes>>, &str> = Ok(Some(Frame::trailers(HeaderMap::new())));
        match sender.produced(Some(next), memory) {
            SendAction::WriteTrailers(bytes) => assert!(sent && bytes == "0\r\n\r\n"),
            SendAction::Fail(SendBodyError::Encode(error)) => {
                assert!(!sent && error == EncodeError::Limit)
            }
            _ => panic!("trailers were lost"),
        }
    }
}

fn trailers() -> HeaderMap {
    let mut trailers = HeaderMap::new();
    trailers.insert("x-end", HeaderValue::from_static("yes"));
    trailers
}

fn body(frames: impl IntoIterator<Item = Result<Frame<Bytes>, &'static str>>) -> TestBody {
    TestBody { frames: frames.into_iter().collect(), recycled: 0 }
}

#[test]
fn returned_request_body_is_driven_after_service_future_finishes() {
    let mode = BodyMode::Chunked;
    let mut reader = Reader::new([Bytes::from_static(
        b"4\r\nbody\r\n0\r\nx-end: yes\r\n\r\nNEXT",
    )]);
    let mut activity = Activity::new(mode, RecvBuffer::new(64, 128).unwrap());
    let metadata = BodyMetadata {
        size: activity.body.size_hint(),
        trailers: activity.body.trailer_hint(),
    };
    let mut sender = BodySender::new(BodyEncoder::new(mode, metadata, LIMITS).unwrap());
    let mut output = Output::default();
    let mut offering = false;
    let stats = loop {
        let next = match activity.next_frame() {
            Wait::Pending => {
                activity.resume(&mut reader, offering);
                offering = activity.end.is_none();
                continue;
            }
            Wait::Ready(next) => next,
        };
        match sender.produced(Some(next), Memory::Asked) {
            SendAction::WriteData { framing, data } => {
                let count = output.write(&[
                    framing.prefix.as_init(),
                    data.as_ref(),
                    framing.suffix.as_init(),
                ]);
                sender.data_written::<Error>(Ok(count)).unwrap();
            }
            SendAction::WriteTrailers(bytes) => {
                let count = output.write(&[&bytes]);
                sender.trailers_written::<Error>(Ok(count)).unwrap();
            }
            SendAction::Done(stats) => break stats,
            _ => panic!("the body was not sent"),
        }
        activity.resume(&mut reader, true);
        offering = false;
    };
    assert!(matches!(activity.end, Some(ReceiveEnd::Complete)));
    assert_eq!(stats.trailer_frames, 1);
    assert_eq!(output.staged, b"4\r\nbody\r\n0\r\nx-end: yes\r\n\r\n");
    assert_eq!(activity.buffer().bytes(), b"NEXT");
}

#[test]
fn exact_length_with_attached_trailers_is_written_without_losing_terminal_checks() {
    let mut body = body([
        Ok(Frame::data(Bytes::from_static(b"body"))),
        Ok(Frame::trailers(trailers())),
    ]);
    let metadata = BodyMetadata {
        size: SizeHint::with_exact(4),
        trailers: TrailerHint::MayHave,
    };
    let encoder = BodyEncoder::new(BodyMode::Chunked, metadata, LIMITS).unwrap();
    let mut output = Output::default();
    let stats = send(&mut output, &mut body, encoder).unwrap();
    assert_eq!(stats.data_frames, 1);
    assert_eq!(stats.trailer_frames, 1);
    assert_eq!(stats.wire_bytes as usize, output.staged.len());
    assert_eq!(output.staged, b"4\r\nbody\r\n0\r\nx-end: yes\r\n\r\n");
}

#[test]
fn pending_production_flushes_head_and_data_without_restarting_the_frame_future() {
    let mut output = Output { staged: b"head".to_vec(), ..Output::default() };
    let metadata = BodyMetadata { size: SizeHint::with_exact(3), trailers: TrailerHint::Absent };
    let encoder = BodyEncoder::new(BodyMode::Fixed(3), metadata, LIMITS).unwrap();
    let mut sender = BodySender::new(encoder);
    // The producer is not ready.
    assert!(sender.flushes());
    output.flush();
    sender.flushed::<()>(Ok(())).unwrap();
    assert_eq!(output.visible, b"head");
    // Still not ready, and nothing is left to flush.
    assert!(!sender.flushes());
    assert_eq!(output.flushes, 1);
    let next = Some(Ok::<_, ()>(Some(Frame::data(Bytes::from_static(b"abc")))));
    let SendAction::WriteData { framing, data } = sender.produced(next, Memory::Asked) else {
        panic!("the frame was not written")
    };
    let count = output.write(&[framing.prefix.as_init(), &data, framing.suffix.as_init()]);
    sender.data_written::<()>(Ok(count)).unwrap();
    assert!(sender.flushes());
    output.flush();
    sender.flushed::<()>(Ok(())).unwrap();
    assert_eq!(output.visible, b"headabc");
    assert_eq!(output.flushes, 2);
    let SendAction::WriteEnd(end) = sender.produced::<Bytes, ()>(Some(Ok(None)), Memory::Asked) else {
        panic!("the body did not end")
    };
    assert_eq!(end.len(), 0);
    assert_eq!(sender.end_written::<()>(Ok(0)).unwrap().wire_bytes, 3);
}

#[test]
fn ready_frames_batch_but_fairness_suspension_flushes_output() {
    for count in [1, 17] {
        let mut output = Output::default();
        let frames = (0..count).map(|_| Ok(Frame::data(Bytes::from_static(b"x"))));
        let mut body = body(frames);
        let metadata = BodyMetadata {
            size: SizeHint::with_exact(count),
            trailers: TrailerHint::Absent,
        };
        let encoder = BodyEncoder::new(BodyMode::Fixed(count), metadata, LIMITS).unwrap();
        send(&mut output, &mut body, encoder).unwrap();
        if count == 1 {
            assert_eq!(output.flushes, 0);
        } else {
            assert_eq!(output.visible, vec![b'x'; 16]);
            assert_eq!(output.flushes, 1);
        }
    }
}

#[test]
fn cancellation_settles_pending_flush_and_preserves_its_failure() {
    let encoder =
        BodyEncoder::new(BodyMode::Chunked, BodyMetadata::unknown(), LIMITS).unwrap();
    let mut sender = BodySender::new(encoder);
    assert!(sender.flushes());
    let failure = std::io::Error::new(std::io::ErrorKind::BrokenPipe, "original flush failure");
    let Err(SendBodyError::Io(error)) = sender.flushed::<()>(Err(failure)) else {
        panic!("lost flush failure")
    };
    assert_eq!(error.kind(), std::io::ErrorKind::BrokenPipe);
}

#[test]
fn late_producer_errors_and_post_trailer_frames_prevent_successful_send() {
    for late_error in [false, true] {
        let mut body = body([
            Ok(Frame::trailers(HeaderMap::new())),
            if late_error {
                Err("late failure")
            } else {
                Ok(Frame::data(Bytes::new()))
            },
        ]);
        let metadata = BodyMetadata {
            size: SizeHint::with_exact(0),
            trailers: TrailerHint::MayHave,
        };
        let encoder = BodyEncoder::new(BodyMode::Chunked, metadata, LIMITS).unwrap();
        let mut output = Output::default();
        let result = send(&mut output, &mut body, encoder);
        if late_error {
            assert!(matches!(result, Err(SendBodyError::Body("late failure"))));
        } else {
            assert!(matches!(result, Err(SendBodyError::Encode(EncodeError::FrameAfterEnd))));
        }
        assert_eq!(body.recycled, usize::from(!late_error));
        assert_eq!(output.staged, b"0\r\n\r\n");
    }
}

#[test]
fn recycling_waits_for_write_completion_and_is_not_promised_on_drop() {
    for drop_activity in [false, true] {
        let mut body = body([Ok(Frame::data(Bytes::from_static(b"body")))]);
        let metadata =
            BodyMetadata { size: SizeHint::with_exact(4), trailers: TrailerHint::Absent };
        let encoder = BodyEncoder::new(BodyMode::Fixed(4), metadata, LIMITS).unwrap();
        let mut sender = BodySender::new(encoder);
        let next = Some(body.frames.pop_front().transpose());
        let SendAction::WriteData { data, .. } = sender.produced(next, Memory::Asked) else {
            panic!("the frame was not written")
        };
        assert_eq!(data, "body");
        // The write is pending, and was canceled.
        assert_eq!(body.recycled, 0);
        if drop_activity {
            drop(data);
        } else {
            body.recycled += 1;
            let canceled = Err(karmaio::runtime::operation_canceled());
            let Err(SendBodyError::Io(error)) = sender.data_written::<()>(canceled) else {
                panic!("write cancellation lost")
            };
            assert!(karmaio::runtime::is_operation_canceled(&error));
            assert_eq!(sender.stats.data_frames, 0);
        }
        assert_eq!(body.recycled, usize::from(!drop_activity));
    }
}

#[test]
fn ready_empty_frames_yield_and_cancel_without_transport_submissions() {
    let encoder =
        BodyEncoder::new(BodyMode::Chunked, BodyMetadata::unknown(), LIMITS).unwrap();
    let mut sender = BodySender::new(encoder);
    let mut work = WorkBudget::new();
    let mut recycled = 0;
    let mut submissions = 0;
    while !work.step() {
        let next = Some(Ok::<_, ()>(Some(Frame::data(Bytes::new()))));
        let SendAction::WriteData { framing, data } = sender.produced(next, Memory::Asked) else {
            panic!("an empty frame was refused")
        };
        let length = framing.prefix.as_init().len() + data.len() + framing.suffix.len();
        submissions += usize::from(length != 0);
        sender.data_written::<()>(Ok(length)).unwrap();
        recycled += 1;
    }
    let action = sender.produced::<Bytes, ()>(None, Memory::Asked);
    assert!(matches!(action, SendAction::Fail(SendBodyError::Canceled)));
    assert_eq!(recycled, 16);
    assert_eq!(submissions, 0);
}

struct Reason;

impl Foreign for Reason {
    fn text(&self) -> String {
        "reason".to_string()
    }
}

#[test]
fn send_errors_keep_their_category() {
    let map = |error| map_send_error(error, "request body failed", "request body canceled");
    let body = map(SendBodyError::Body(Payload { inner: Box::new(Reason) }));
    assert_eq!(body.kind(), ErrorKind::Body);
    assert_eq!(body.context, "request body failed");
    assert!(matches!(body.source(), Some(Source::Foreign(cause)) if cause.inner.text() == "reason"));
    let encode = map(SendBodyError::Encode(EncodeError::FrameAfterEnd));
    assert!(matches!(encode.source(), Some(Source::Encode(EncodeError::FrameAfterEnd))));
    let io = map(SendBodyError::Io(std::io::Error::other("broken")));
    assert_eq!(io.kind(), ErrorKind::Io);
    let canceled = map(SendBodyError::Canceled);
    assert_eq!(canceled.kind(), ErrorKind::Canceled);
    assert_eq!(canceled.context, "request body canceled");
}
