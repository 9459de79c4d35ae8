//! Writes that go on until everything is written.

use crate::outside::io::{self, IoKind};
use vstd::prelude::*;

verus! {

/// Whether a result is what a completed write of at most `remaining` bytes
/// amounts to. A write that was interrupted made no progress and is tried again;
/// one that wrote nothing, or more than there was, is an error.
pub open spec fn progresses(
    result: Result<usize, std::io::Error>,
    remaining: nat,
    progress: Result<usize, std::io::Error>,
) -> bool {
    match result {
        Ok(count) => if count == 0 {
            progress matches Err(error) && io::kind_of(error) == IoKind::WriteZero && !io::cancels(
                error,
            )
        } else if count > remaining {
            progress matches Err(error) && io::is_own(
                error,
                IoKind::InvalidData,
                "writer over-reported completion",
            )
        } else {
            progress == result
        },
        Err(error) => if io::kind_of(error) == IoKind::Interrupted {
            progress == Ok::<usize, std::io::Error>(0)
        } else {
            progress == result
        },
    }
}

/// Checks what a completed write reports.
pub fn checked_progress(result: Result<usize, std::io::Error>, remaining: usize) -> (progress:
    Result<usize, std::io::Error>)
    ensures
        progresses(result, remaining as nat, progress),
        progress matches Ok(count) ==> count <= remaining,
{
    match result {
        Ok(count) => if count == 0 {
            Err(io::of_kind(IoKind::WriteZero))
        } else if count > remaining {
            Err(io::error(IoKind::InvalidData, "writer over-reported completion"))
        } else {
            Ok(count)
        },
        Err(error) => match io::kind(&error) {
            IoKind::Interrupted => Ok(0),
            _ => Err(error),
        },
    }
}

/// How much of one or more buffers has been written. The cursor borrows no
/// payload and never joins the buffers.
#[derive(Debug)]
pub struct Cursor {
    pub written: usize,
    pub length: usize,
}

/// What a write does next.
#[derive(Debug)]
pub enum WriteAction {
    /// Everything is written.
    Done(usize),
    /// The owner asked to stop before the next write.
    Canceled(std::io::Error),
    /// The bytes between two positions are to be written.
    Submit { from: usize, to: usize },
}

pub open spec fn total(lengths: Seq<usize>) -> nat
    decreases lengths.len(),
{
    if lengths.len() == 0 {
        0
    } else {
        total(lengths.drop_last()) + lengths.last() as nat
    }
}

proof fn total_grows(lengths: Seq<usize>, count: int)
    requires
        0 <= count <= lengths.len(),
    ensures
        total(lengths.take(count)) <= total(lengths),
    decreases lengths.len() - count,
{
    if count == lengths.len() {
        assert(lengths.take(count) =~= lengths);
    } else {
        assert(lengths.take(count + 1).drop_last() =~= lengths.take(count));
        total_grows(lengths, count + 1);
    }
}

impl Cursor {
    pub open spec fn wf(self) -> bool {
        self.written <= self.length
    }

    /// The start of a buffer.
    pub fn new(length: usize) -> (result: Self)
        ensures
            result == (Cursor { written: 0, length }),
            result.wf(),
    {
        Cursor { written: 0, length }
    }

    /// The start of several buffers, unless their lengths do not add up to a
    /// length.
    pub fn over(lengths: &[usize]) -> (result: Result<Self, std::io::Error>)
        ensures
            match result {
                Ok(cursor) => cursor.written == 0 && cursor.length == total(lengths@)
                    && cursor.wf(),
                Err(error) => total(lengths@) > usize::MAX && io::is_own(
                    error,
                    IoKind::InvalidInput,
                    "buffer length overflow",
                ),
            },
    {
        let mut length: usize = 0;
        for index in 0..lengths.len()
            invariant
                length == total(lengths@.take(index as int)),
        {
            proof {
                assert(lengths@.take(index + 1).drop_last() =~= lengths@.take(index as int));
                total_grows(lengths@, index + 1);
            }
            match length.checked_add(lengths[index]) {
                Some(sum) => {
                    length = sum;
                },
                None => return Err(io::error(IoKind::InvalidInput, "buffer length overflow")),
            }
        }
        assert(lengths@.take(lengths@.len() as int) =~= lengths@);
        Ok(Cursor { written: 0, length })
    }

    /// Decides what the write does next. Nothing is submitted once its owner
    /// asked to stop, and everything that is written stays so.
    pub fn next(&self, canceled: bool) -> (result: WriteAction)
        requires
            self.wf(),
        ensures
            match result {
                WriteAction::Done(written) => self.written == self.length && written
                    == self.length,
                WriteAction::Canceled(error) => self.written < self.length && canceled
                    && io::cancels(error),
                WriteAction::Submit { from, to } => !canceled && from == self.written && to
                    == self.length && from < to,
            },
    {
        if self.written == self.length {
            WriteAction::Done(self.written)
        } else if canceled {
            WriteAction::Canceled(io::canceled())
        } else {
            WriteAction::Submit { from: self.written, to: self.length }
        }
    }

    /// Takes in what a completed write reports.
    pub fn advance(&mut self, result: Result<usize, std::io::Error>) -> (progress: Result<
        usize,
        std::io::Error,
    >)
        requires
            old(self).wf(),
        ensures
            final(self).wf(),
            progresses(result, (old(self).length - old(self).written) as nat, progress),
            final(self).length == old(self).length,
            final(self).written == (match progress {
                Ok(count) => old(self).written + count,
                Err(_) => old(self).written as int,
            }),
    {
        let progress = checked_progress(result, self.length - self.written);
        if let Ok(count) = &progress {
            self.written = self.written + *count;
        }
        progress
    }
}

/// The position that writes reach which report these counts.
pub open spec fn position(start: nat, counts: Seq<usize>) -> nat {
    start + total(counts)
}

/// Whether each write, submitted from where the one before it stopped, reports
/// no more than there was.
pub open spec fn within(length: nat, counts: Seq<usize>) -> bool {
    forall|i: int| 0 <= i < counts.len() ==> position(0, #[trigger] counts.take(i)) + counts[i] <= length
}

/// Writes that each start where the one before it stopped write every byte once
/// and in order: what they wrote, put together, is the text up to the position
/// they reach.
pub proof fn written_in_order(text: Seq<u8>, counts: Seq<usize>)
    requires
        within(text.len(), counts),
    ensures
        position(0, counts) <= text.len(),
        pieces(text, counts) == text.subrange(0, position(0, counts) as int),
    decreases counts.len(),
{
    if counts.len() > 0 {
        let before = counts.drop_last();
        let last = counts.len() - 1;
        assert(counts.take(last) =~= before);
        assert forall|i: int| 0 <= i < before.len() implies position(
            0,
            #[trigger] before.take(i),
        ) + before[i] <= text.len() by {
            assert(before.take(i) =~= counts.take(i));
        }
        written_in_order(text, before);
        assert(position(0, counts.take(last)) + counts[last] <= text.len());
        assert(pieces(text, counts) =~= text.subrange(0, position(0, counts) as int));
    } else {
        assert(text.subrange(0, 0) =~= Seq::empty());
    }
}

/// What writes of these counts wrote of a text.
pub open spec fn pieces(text: Seq<u8>, counts: Seq<usize>) -> Seq<u8>
    decreases counts.len(),
{
    if counts.len() == 0 {
        Seq::empty()
    } else {
        let from = position(0, counts.drop_last()) as int;
        pieces(text, counts.drop_last()) + text.subrange(from, from + counts.last() as int)
    }
}

} // verus!
