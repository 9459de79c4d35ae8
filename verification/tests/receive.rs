//! Input on its way from a transport to a parser.

use bytes::{Bytes, BytesMut};
use std::collections::VecDeque;
use std::time::{Duration, Instant};
use vakya::body::incoming::{IncomingData, Leased};
use vakya::error::{Error, ErrorKind, Source};
use vakya::io::deadline::{
    after, after_from, configured, configured_after, expired, represented, timed, timed_read,
};
use vakya::io::managed::{checked_lease, map_error};
use vakya::io::recv::{is_oversized, PendingRead, ReadStart, ReadStatus, RecvBuffer};

enum Step {
    Data(Bytes),
    Error(std::io::Error),
}

/// A transport that brings what it was told, and remembers what it was asked.
struct Reader {
    steps: VecDeque<Step>,
    submissions: usize,
    capacities: Vec<usize>,
}

impl Reader {
    fn new(steps: impl IntoIterator<Item = Step>) -> Self {
        Reader { steps: steps.into_iter().collect(), submissions: 0, capacities: Vec::new() }
    }

    fn fill(&mut self, bytes: &mut BytesMut, room: usize) -> Result<usize, std::io::Error> {
        self.submissions += 1;
        self.capacities.push(room);
        match self.steps.pop_front() {
            None => Ok(0),
            Some(Step::Error(error)) => Err(error),
            Some(Step::Data(mut data)) => {
                let count = data.len().min(room);
                bytes.extend_from_slice(&data.split_to(count));
                if !data.is_empty() {
                    self.steps.push_front(Step::Data(data));
                }
                Ok(count)
            }
        }
    }
}

fn read(
    buffer: RecvBuffer,
    reader: &mut Reader,
    canceled: bool,
) -> (Result<ReadStatus, Error>, RecvBuffer) {
    match buffer.read(canceled) {
        ReadStart::Refused(error, buffer) => (Err(error), buffer),
        ReadStart::Submit { mut bytes, start, end, pending } => {
            assert_eq!(bytes.len(), start);
            let result = reader.fill(&mut bytes, end - start);
            pending.complete(bytes, result)
        }
        ReadStart::Lease { .. } => panic!("a plain read leases nothing"),
    }
}

fn submitted(start: ReadStart) -> (BytesMut, PendingRead) {
    match start {
        ReadStart::Submit { bytes, pending, .. } => (bytes, pending),
        _ => panic!("read was not submitted"),
    }
}

fn data(bytes: &'static [u8]) -> Step {
    Step::Data(Bytes::from_static(bytes))
}

fn holding(preferred: usize, retained: usize, bytes: &'static [u8]) -> RecvBuffer {
    let buffer = RecvBuffer::new(preferred, retained).unwrap();
    let (mut held, pending) = submitted(buffer.read(false));
    held.extend_from_slice(bytes);
    let (result, buffer) = pending.complete(held, Ok(bytes.len()));
    result.unwrap();
    buffer
}

#[test]
fn short_reads_obey_retained_bound_and_eof_preserves_read_ahead() {
    let mut reader = Reader::new([data(b"ab"), data(b"cdefgh")]);
    let buffer = RecvBuffer::new(3, 7).unwrap();
    let (result, buffer) = read(buffer, &mut reader, false);
    assert_eq!(result.unwrap(), ReadStatus::Data(2));
    let (result, buffer) = read(buffer, &mut reader, false);
    assert_eq!(result.unwrap(), ReadStatus::Data(3));
    let (result, buffer) = read(buffer, &mut reader, false);
    assert_eq!(result.unwrap(), ReadStatus::Data(2));
    assert_eq!(buffer.bytes(), b"abcdefg");
    let (result, mut buffer) = read(buffer, &mut reader, false);
    assert_eq!(result.unwrap_err().kind(), ErrorKind::Limit);
    assert_eq!(reader.submissions, 3);
    assert_eq!(reader.capacities, [3, 3, 2]);
    buffer.consume(4).unwrap();
    let (result, buffer) = read(buffer, &mut reader, false);
    assert_eq!(result.unwrap(), ReadStatus::Data(1));
    let (result, buffer) = read(buffer, &mut reader, false);
    assert_eq!(result.unwrap(), ReadStatus::Eof);
    assert_eq!(buffer.bytes(), b"efgh");
}

#[test]
fn payload_extraction_shares_storage_and_preserves_framing_boundaries() {
    let mut reader = Reader::new([data(b"HEAD4\r\nbody\r\nNEXT"), data(b"later")]);
    let buffer = RecvBuffer::new(32, 32).unwrap();
    let (result, mut buffer) = read(buffer, &mut reader, false);
    result.unwrap();
    buffer.consume(4).unwrap();
    let pointer = buffer.bytes()[3..].as_ptr();
    let body = buffer.take_payload(3..7, 9).unwrap();
    assert_eq!(body.as_ref().as_ptr(), pointer);
    assert_eq!(body.as_ref(), b"body");
    assert_eq!(buffer.bytes(), b"NEXT");
    let (result, mut buffer) = read(buffer, &mut reader, false);
    result.unwrap();
    assert_eq!(body.as_ref(), b"body");
    let pointer = buffer.bytes().as_ptr();
    let read_ahead = buffer.take_all();
    assert_eq!(read_ahead, "NEXTlater");
    assert_eq!(read_ahead.as_ptr(), pointer);
}

#[test]
fn invalid_decoder_ranges_do_not_mutate_retained_input() {
    let mut buffer = holding(8, 16, b"bytes");
    assert_eq!(buffer.take_payload(1..5, 4).unwrap_err().kind(), ErrorKind::Internal);
    assert_eq!(buffer.consume(6).unwrap_err().kind(), ErrorKind::Internal);
    assert_eq!(buffer.bytes(), b"bytes");
}

#[test]
fn pending_cancellation_recovers_prefix_only_after_actual_completion() {
    for success in [false, true] {
        let buffer = holding(8, 16, b"prefix");
        // The submitted read owns the buffer until the transport completes it.
        let (mut bytes, pending) = submitted(buffer.read(false));
        let (result, buffer) = if success {
            bytes.extend_from_slice(b"x");
            pending.complete(bytes, Ok(1))
        } else {
            pending.complete(bytes, Err(karmaio::runtime::operation_canceled()))
        };
        if success {
            assert_eq!(result.unwrap(), ReadStatus::Data(1));
            assert_eq!(buffer.bytes(), b"prefixx");
        } else {
            let error = result.unwrap_err();
            assert_eq!(error.kind(), ErrorKind::Canceled);
            assert!(error.source().is_some());
            assert_eq!(buffer.bytes(), b"prefix");
        }
    }
}

#[test]
fn pre_submission_cancel_and_io_error_preserve_existing_input() {
    let mut reader = Reader::new([Step::Error(std::io::Error::other("failed"))]);
    let buffer = holding(8, 16, b"prefix");
    let (result, buffer) = read(buffer, &mut reader, true);
    assert_eq!(result.unwrap_err().kind(), ErrorKind::Canceled);
    assert_eq!(reader.submissions, 0);
    assert_eq!(buffer.bytes(), b"prefix");
    let (result, buffer) = read(buffer, &mut reader, false);
    assert_eq!(result.unwrap_err().kind(), ErrorKind::Io);
    assert_eq!(buffer.bytes(), b"prefix");
}

#[test]
fn inconsistent_readers_are_refused() {
    // More than was asked for.
    let (mut bytes, pending) = submitted(RecvBuffer::new(2, 8).unwrap().read(false));
    bytes.extend_from_slice(b"abc");
    let (result, _) = pending.complete(bytes, Ok(3));
    assert_eq!(
        result.unwrap_err().context,
        "reader reported an inconsistent initialized length"
    );
    // Fewer bytes than were reported.
    let (mut bytes, pending) = submitted(RecvBuffer::new(4, 8).unwrap().read(false));
    bytes.extend_from_slice(b"a");
    let (result, buffer) = pending.complete(bytes, Ok(2));
    assert_eq!(result.unwrap_err().kind(), ErrorKind::Io);
    assert_eq!(buffer.bytes(), b"a");
}

#[test]
fn receive_limits_are_nonzero_and_ordered() {
    assert_eq!(RecvBuffer::new(0, 8).err().unwrap().kind(), ErrorKind::Limit);
    assert_eq!(RecvBuffer::new(9, 8).err().unwrap().kind(), ErrorKind::Limit);
    let buffer = RecvBuffer::new(8, 8).unwrap();
    assert_eq!(buffer.len(), 0);
    assert_eq!(buffer.bytes(), b"");
}

#[test]
fn shared_prefix_leaves_what_follows() {
    let mut buffer = holding(32, 32, b"GET / HTTP/1.1\r\n\r\nbody");
    let pointer = buffer.bytes().as_ptr();
    let head = buffer.take_shared_prefix(18).unwrap();
    assert_eq!(head, "GET / HTTP/1.1\r\n\r\n");
    assert_eq!(head.as_ptr(), pointer);
    assert_eq!(buffer.bytes(), b"body");
    assert_eq!(buffer.take_shared_prefix(5).unwrap_err().kind(), ErrorKind::Internal);
    assert_eq!(buffer.bytes(), b"body");
}

#[test]
fn empty_buffers_let_go_of_large_storage() {
    assert!(!is_oversized(8, 2, 100));
    assert!(is_oversized(9, 2, 100));
    assert!(is_oversized(101, 50, 100));
    assert!(!is_oversized(100, 50, 100));
    assert!(!is_oversized(usize::MAX, usize::MAX, usize::MAX));
}

fn lease(bytes: &[u8]) -> Leased {
    Leased { buffer: Box::new(bytes.to_vec()) }
}

fn leased(bytes: &[u8]) -> RecvBuffer {
    let ReadStart::Lease { limit, buffer } = RecvBuffer::new(16, 32).unwrap().read_managed(false)
    else {
        panic!("nothing was leased")
    };
    assert_eq!(limit, 16);
    let lease = checked_lease(Ok(Some(lease(bytes))), limit);
    let (result, buffer) = buffer.complete_managed(lease);
    assert_eq!(result.unwrap(), ReadStatus::Data(bytes.len()));
    buffer
}

#[test]
fn leased_payload_moves_without_copy_and_keeps_the_rest() {
    let mut buffer = leased(b"payload-next");
    let pointer = buffer.bytes().as_ptr();
    let payload = buffer.take_payload(0..7, 8).unwrap();
    assert!(payload.is_managed());
    assert_eq!(payload.as_ref().as_ptr(), pointer);
    assert_eq!(payload.as_ref(), b"payload");
    assert_eq!(buffer.bytes(), b"next");
    assert!(buffer.is_leased());
    let rest = buffer.take_payload(0..4, 4).unwrap();
    assert!(!rest.is_managed());
    assert_eq!(rest.as_ref(), b"next");
}

#[test]
fn a_lease_that_is_held_makes_reads_portable() {
    let mut buffer = leased(b"abcd");
    let held: IncomingData = buffer.take_payload(0..4, 4).unwrap();
    let (mut bytes, pending) = submitted(buffer.read_managed(false));
    bytes.extend_from_slice(b"efgh");
    let (result, mut buffer) = pending.complete(bytes, Ok(4));
    assert_eq!(result.unwrap(), ReadStatus::Data(4));
    let copied = buffer.take_payload(0..4, 4).unwrap();
    assert!(!copied.is_managed());
    drop(held);
    buffer.lease_released();
    assert!(matches!(buffer.read_managed(false), ReadStart::Lease { limit: 16, .. }));
}

#[test]
fn a_partial_head_is_read_on_contiguously() {
    let buffer = leased(b"GET / HT");
    let (mut bytes, pending) = submitted(buffer.read_managed(false));
    assert_eq!(&bytes[..], b"GET / HT");
    bytes.extend_from_slice(b"TP/1.1");
    let (result, buffer) = pending.complete(bytes, Ok(6));
    assert_eq!(result.unwrap(), ReadStatus::Data(6));
    assert_eq!(buffer.bytes(), b"GET / HTTP/1.1");
}

#[test]
fn leased_control_data_is_consumed_and_copied() {
    let mut buffer = leased(b"head+tail");
    let head = buffer.take_shared_prefix(5).unwrap();
    assert_eq!(head, "head+");
    buffer.consume(1).unwrap();
    assert_eq!(buffer.bytes(), b"ail");
    assert_eq!(buffer.take_all(), "ail");
    assert_eq!(buffer.len(), 0);
    let mut buffer = leased(b"gone");
    buffer.consume(4).unwrap();
    assert_eq!(buffer.bytes(), b"");
    let ReadStart::Refused(error, _) = buffer.read_managed(true) else {
        panic!("canceled read was submitted")
    };
    assert!(error.is_canceled());
}

#[test]
fn leases_are_checked() {
    let empty = checked_lease(Ok(Some(lease(b""))), 4).err().unwrap();
    assert_eq!(empty.kind(), ErrorKind::Internal);
    assert_eq!(empty.context, "managed stream receive returned an empty lease");
    let large = checked_lease(Ok(Some(lease(b"large"))), 4).err().unwrap();
    assert_eq!(large.context, "managed stream receive exceeded its requested range");
    assert!(checked_lease(Ok(Some(lease(b"large"))), 0).unwrap().is_some());
    assert!(checked_lease(Ok(None), 4).unwrap().is_none());
    let failed = checked_lease(Err(std::io::Error::other("failed")), 4).err().unwrap();
    assert_eq!(failed.kind(), ErrorKind::Io);
    let (result, buffer) = RecvBuffer::new(4, 4).unwrap().complete_managed(Ok(None));
    assert_eq!(result.unwrap(), ReadStatus::Eof);
    assert_eq!(buffer.len(), 0);
    let (result, _) = buffer.complete_managed(Err(failed));
    assert_eq!(result.unwrap_err().kind(), ErrorKind::Io);
}

#[test]
fn managed_read_preserves_io_errors() {
    let error = map_error(std::io::Error::from(std::io::ErrorKind::ConnectionReset));
    assert_eq!(error.kind(), ErrorKind::Io);
}

#[test]
fn deadline_overflow_is_an_error_and_never_disables_the_budget() {
    assert!(after(None).unwrap().is_none());
    let before = Instant::now();
    let deadline = after(Some(Duration::ZERO)).unwrap().unwrap();
    assert!(deadline >= before && deadline <= Instant::now());
    assert!(after(Some(Duration::from_secs(1))).unwrap().is_some());
    assert_eq!(
        after(Some(Duration::MAX)).unwrap_err().kind(),
        std::io::ErrorKind::InvalidInput
    );
    assert_eq!(
        configured_after(Some(Duration::MAX)).unwrap_err().kind(),
        ErrorKind::LocalMessage
    );
}

#[test]
fn deadlines_are_counted_from_their_start() {
    let start = Instant::now();
    let deadline = after_from(&start, Some(Duration::from_millis(5))).unwrap().unwrap();
    assert_eq!(deadline - start, Duration::from_millis(5));
    assert!(!expired(Some(deadline), &start));
    assert!(expired(Some(deadline), &deadline));
    assert!(expired(Some(start), &deadline));
    assert!(!expired(None, &deadline));
    assert_eq!(represented(Some(start)).unwrap(), start);
    let error = represented(None).unwrap_err();
    assert_eq!(error.to_string(), "timeout cannot be represented as a deadline");
    let error = configured(Err(error)).unwrap_err();
    assert!(matches!(error.source(), Some(Source::Io(_))));
}

#[test]
fn elapsed_deadline_replaces_success_and_cancellation_only() {
    let elapsed = timed(Ok(1), true).unwrap_err();
    assert_eq!(elapsed.kind(), std::io::ErrorKind::TimedOut);
    let canceled = timed::<()>(Err(karmaio::runtime::operation_canceled()), true).unwrap_err();
    assert_eq!(canceled.kind(), std::io::ErrorKind::TimedOut);
    let original = std::io::Error::new(std::io::ErrorKind::ConnectionReset, "original");
    assert_eq!(
        timed::<()>(Err(original), true).unwrap_err().kind(),
        std::io::ErrorKind::ConnectionReset
    );
    assert_eq!(timed(Ok(1), false).unwrap(), 1);
    assert_eq!(timed_read(Ok(1), true).unwrap_err().kind(), ErrorKind::Timeout);
    let broken = Error::new(ErrorKind::Io, "broken");
    assert_eq!(timed_read::<()>(Err(broken), true).unwrap_err().kind(), ErrorKind::Io);
    let stopped = Error::new(ErrorKind::Canceled, "stopped");
    assert_eq!(timed_read::<()>(Err(stopped), true).unwrap_err().kind(), ErrorKind::Timeout);
}

#[test]
fn an_emptied_lease_is_let_go() {
    let mut buffer = leased(b"abcd");
    buffer.consume(2).unwrap();
    assert_eq!(buffer.bytes(), b"cd");
    buffer.consume(2).unwrap();
    assert!(!buffer.is_leased());
    assert!(matches!(buffer.read_managed(false), ReadStart::Lease { .. }));
}
