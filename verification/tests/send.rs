//! Writes that go on until everything is written.

use bytes::Bytes;
use std::cell::Cell;
use std::collections::VecDeque;
use std::rc::Rc;
use vakya::body::Buffer;
use vakya::future::WorkBudget;
use vakya::io::send::{checked_progress, Cursor, WriteAction};

enum WriteStep {
    Limit(usize),
    Report(usize),
    Error(std::io::Error),
}

/// A transport that takes what it was told to, and remembers what it was given.
struct Writer {
    steps: VecDeque<WriteStep>,
    limit: usize,
    output: Vec<u8>,
    pointers: Vec<usize>,
    submissions: usize,
}

impl Writer {
    fn limited(limit: usize) -> Self {
        Writer { limit, ..Writer::new([]) }
    }

    fn new(steps: impl IntoIterator<Item = WriteStep>) -> Self {
        Writer {
            steps: steps.into_iter().collect(),
            limit: usize::MAX,
            output: Vec::new(),
            pointers: Vec::new(),
            submissions: 0,
        }
    }

    /// Writes the parts from a position on, as far as one call goes.
    fn write(&mut self, parts: &[&[u8]], mut from: usize) -> Result<usize, std::io::Error> {
        self.submissions += 1;
        let limit = match self.steps.pop_front() {
            None => self.limit,
            Some(WriteStep::Limit(limit)) => limit,
            Some(WriteStep::Report(count)) => return Ok(count),
            Some(WriteStep::Error(error)) => return Err(error),
        };
        let mut written = 0;
        for part in parts {
            if from >= part.len() {
                from -= part.len();
                continue;
            }
            let rest = &part[from..];
            from = 0;
            let count = rest.len().min(limit - written);
            if written == 0 {
                self.pointers.push(rest.as_ptr() as usize);
            }
            self.output.extend_from_slice(&rest[..count]);
            written += count;
            if written == limit {
                break;
            }
        }
        Ok(written)
    }
}

fn write_all(writer: &mut Writer, parts: &[&[u8]]) -> Result<usize, std::io::Error> {
    let lengths: Vec<usize> = parts.iter().map(|part| part.len()).collect();
    let mut cursor = Cursor::over(&lengths)?;
    loop {
        match cursor.next(false) {
            WriteAction::Done(written) => return Ok(written),
            WriteAction::Canceled(error) => return Err(error),
            WriteAction::Submit { from, to } => {
                assert_eq!(to, lengths.iter().sum::<usize>());
                let result = writer.write(parts, from);
                cursor.advance(result)?;
            }
        }
    }
}

/// A payload that says when it is let go.
struct TrackedData {
    bytes: &'static [u8],
    drops: Rc<Cell<usize>>,
}

impl Drop for TrackedData {
    fn drop(&mut self) {
        self.drops.set(self.drops.get() + 1);
    }
}

#[test]
fn scalar_write_completes_through_every_partial_width() {
    for width in 1..=6 {
        let mut writer = Writer::limited(width);
        let buffer = Bytes::from_static(b"abcdef");
        let result = write_all(&mut writer, &[&buffer]);
        assert_eq!(result.unwrap(), 6);
        assert_eq!(buffer, b"abcdef"[..]);
        assert_eq!(writer.output, b"abcdef");
    }
}

#[test]
fn vectored_cursor_crosses_every_component_boundary() {
    for width in 1..=9 {
        let mut writer = Writer::limited(width);
        let result = write_all(&mut writer, &[b"abc", b"", b"de", b"fghi"]);
        assert_eq!(result.unwrap(), 9);
        assert_eq!(writer.output, b"abcdefghi");
    }
}

#[test]
fn framed_write_supports_chunk_and_zero_length_framing() {
    let mut chunked = Writer::limited(1);
    let data = Bytes::from_static(b"body");
    let result = write_all(&mut chunked, &[b"4\r\n", &data, b"\r\n"]);
    assert_eq!(result.unwrap(), 9);
    assert_eq!(data, b"body"[..]);
    assert_eq!(chunked.output, b"4\r\nbody\r\n");

    let mut fixed = Writer::limited(2);
    let result = write_all(&mut fixed, &[b"", &data, b""]);
    assert_eq!(result.unwrap(), 4);
    assert_eq!(data, b"body"[..]);
    assert_eq!(fixed.output, b"body");
}

#[test]
fn io_failure_after_progress_returns_payload_once() {
    let drops = Rc::new(Cell::new(0));
    let data = TrackedData { bytes: b"payload", drops: Rc::clone(&drops) };
    let mut writer = Writer::new([
        WriteStep::Limit(2),
        WriteStep::Limit(2),
        WriteStep::Error(std::io::Error::other("failed")),
    ]);
    let result = write_all(&mut writer, &[b"prefix", data.bytes, b"suffix"]);
    assert_eq!(result.unwrap_err().kind(), std::io::ErrorKind::Other);
    assert_eq!(drops.get(), 0);
    drop(data);
    assert_eq!(drops.get(), 1);
}

#[test]
fn confirmed_cancellation_returns_payload_once() {
    for canceled_on_call in [1, 2] {
        let drops = Rc::new(Cell::new(0));
        let data = TrackedData { bytes: b"payload", drops: Rc::clone(&drops) };
        let mut steps: Vec<_> = (1..canceled_on_call).map(|_| WriteStep::Limit(3)).collect();
        steps.push(WriteStep::Error(karmaio::runtime::operation_canceled()));
        let mut writer = Writer::new(steps);
        let result = write_all(&mut writer, &[b"prefix", data.bytes, b"suffix"]);
        assert!(karmaio::runtime::is_operation_canceled(result.as_ref().unwrap_err()));
        assert_eq!(drops.get(), 0);
        drop(data);
        assert_eq!(drops.get(), 1);
    }
}

#[test]
fn control_buffers_cover_heads_final_chunks_and_trailers() {
    let mut writer = Writer::limited(2);
    for control in [
        Bytes::from_static(b"HTTP/1.1 200 OK\r\n\r\n"),
        Bytes::from_static(b"0\r\n\r\n"),
        Bytes::from_static(b"0\r\nX-End: yes\r\n\r\n"),
    ] {
        write_all(&mut writer, &[&control]).unwrap();
    }
    assert_eq!(
        writer.output,
        b"HTTP/1.1 200 OK\r\n\r\n0\r\n\r\n0\r\nX-End: yes\r\n\r\n"
    );
}

#[test]
fn zero_and_invalid_completions_preserve_scalar_and_vectored_buffers() {
    for (count, kind) in [
        (0, std::io::ErrorKind::WriteZero),
        (100, std::io::ErrorKind::InvalidData),
    ] {
        let bytes = Bytes::from_static(b"body");
        let pointer = bytes.as_ptr();
        let mut writer = Writer::new([WriteStep::Report(count)]);
        let mut cursor = Cursor::new(bytes.len());
        assert!(matches!(cursor.next(false), WriteAction::Submit { from: 0, to: 4 }));
        let result = cursor.advance(writer.write(&[&bytes], 0));
        assert_eq!(result.unwrap_err().kind(), kind);
        assert_eq!(bytes.as_init().as_ptr(), pointer);
        let mut writer = Writer::new([WriteStep::Report(count)]);
        let result = write_all(&mut writer, &[&bytes]);
        assert_eq!(result.unwrap_err().kind(), kind);
        assert_eq!(bytes.as_ptr(), pointer);
    }
}

#[test]
fn partial_writes_use_original_payload_addresses_and_retry_interrupted() {
    let bytes = Bytes::from_static(b"body");
    let pointer = bytes.as_ptr() as usize;
    let steps = || {
        [
            WriteStep::Limit(2),
            WriteStep::Error(std::io::ErrorKind::Interrupted.into()),
            WriteStep::Limit(2),
        ]
    };
    for parts in [vec![&bytes[..]], vec![&b""[..], &bytes[..], &b""[..]]] {
        let mut writer = Writer::new(steps());
        let result = write_all(&mut writer, &parts);
        assert_eq!(result.unwrap(), 4);
        assert_eq!(writer.output, b"body");
        assert_eq!(writer.pointers, [pointer, pointer + 2]);
    }
}

#[test]
fn ready_writes_yield_and_observe_cancel_before_another_submission() {
    let mut writer = Writer::limited(1);
    let bytes = Bytes::from(vec![0; 100]);
    let mut cursor = Cursor::new(bytes.len());
    let mut budget = WorkBudget::new();
    loop {
        // The activity suspends here, and its owner cancels it meanwhile.
        let canceled = budget.step();
        match cursor.next(canceled) {
            WriteAction::Submit { from, .. } => {
                let result = writer.write(&[&bytes], from);
                cursor.advance(result).unwrap();
            }
            WriteAction::Canceled(error) => {
                assert!(karmaio::runtime::is_operation_canceled(&error));
                break;
            }
            WriteAction::Done(_) => panic!("nothing stopped the write"),
        }
    }
    assert_eq!(bytes.len(), 100);
    assert_eq!(writer.submissions, 16);
    assert_eq!(writer.output.len(), 16);
}

#[test]
fn pending_cancel_and_success_races_return_payload_only_after_completion() {
    for success in [false, true] {
        let drops = Rc::new(Cell::new(0));
        let data = TrackedData { bytes: b"body", drops: drops.clone() };
        let mut writer = Writer::new([if success {
            WriteStep::Limit(4)
        } else {
            WriteStep::Error(karmaio::runtime::operation_canceled())
        }]);
        let mut cursor = Cursor::new(data.bytes.len());
        let WriteAction::Submit { from, .. } = cursor.next(false) else {
            panic!("nothing was submitted")
        };
        // The write is pending when its owner cancels it, and owns the payload.
        assert_eq!(drops.get(), 0);
        let completed = cursor.advance(writer.write(&[data.bytes], from));
        assert_eq!(drops.get(), 0);
        if success {
            assert_eq!(completed.unwrap(), 4);
            assert!(matches!(cursor.next(true), WriteAction::Done(4)));
        } else {
            assert!(karmaio::runtime::is_operation_canceled(completed.as_ref().unwrap_err()));
        }
        drop(data);
        assert_eq!(drops.get(), 1);
    }
}

#[test]
fn written_buffers_are_done_even_when_canceled() {
    let mut cursor = Cursor::new(2);
    assert_eq!(cursor.advance(Ok(2)).unwrap(), 2);
    assert!(matches!(cursor.next(true), WriteAction::Done(2)));
    assert!(matches!(Cursor::new(0).next(true), WriteAction::Done(0)));
    assert!(matches!(Cursor::new(1).next(true), WriteAction::Canceled(_)));
}

#[test]
fn lengths_that_do_not_add_up_are_refused() {
    let error = Cursor::over(&[usize::MAX, 1]).unwrap_err();
    assert_eq!(error.kind(), std::io::ErrorKind::InvalidInput);
    assert_eq!(error.to_string(), "buffer length overflow");
    assert_eq!(Cursor::over(&[usize::MAX - 1, 1]).unwrap().length, usize::MAX);
    assert_eq!(Cursor::over(&[]).unwrap().length, 0);
}

#[test]
fn progress_reports_are_checked() {
    assert_eq!(checked_progress(Ok(3), 3).unwrap(), 3);
    let error = checked_progress(Ok(4), 3).unwrap_err();
    assert_eq!(error.to_string(), "writer over-reported completion");
    let interrupted = std::io::Error::from(std::io::ErrorKind::Interrupted);
    assert_eq!(checked_progress(Err(interrupted), 3).unwrap(), 0);
}

#[test]
fn writes_cover_every_byte_once_and_in_order() {
    let text: Vec<u8> = (0..200).collect();
    let mut writer = Writer::new((0..40).map(|step| WriteStep::Limit(step % 7 + 1)));
    assert_eq!(write_all(&mut writer, &[&text[..50], &text[50..51], &text[51..]]).unwrap(), 200);
    assert_eq!(writer.output, text);
}

#[test]
fn others_get_their_turn_after_sixteen_iterations() {
    let mut budget = WorkBudget::new();
    let turns: Vec<bool> = (0..33).map(|_| budget.step()).collect();
    assert_eq!(turns.iter().filter(|turn| **turn).count(), 2);
    assert!(turns[16] && turns[32]);
}
