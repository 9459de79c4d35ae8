//! Where a message head ends.

use crate::ascii::{CR, LF};
use vstd::prelude::*;

verus! {

/// What has been read of the line at which a scan stands.
#[derive(Clone, Copy, Debug, PartialEq, Eq, Structural)]
pub enum ScanLine {
    /// Only line ends in front of the start line.
    Leading,
    /// Something of a line.
    Content,
    /// The end of a line, so that a line end would end the head.
    End,
    /// The end of a line and a carriage return.
    EndCr,
}

/// How far a head has been scanned.
#[derive(Clone, Copy, Debug, PartialEq, Eq, Structural)]
pub enum HeadScan {
    Scanning { scanned: usize, line: ScanLine },
    Complete { length: usize },
}

/// The line state behind one more byte.
pub open spec fn next_line(line: ScanLine, byte: u8) -> ScanLine {
    if line == ScanLine::Leading && (byte == CR || byte == LF) {
        ScanLine::Leading
    } else if line == ScanLine::End && byte == CR {
        ScanLine::EndCr
    } else if byte == LF {
        ScanLine::End
    } else {
        ScanLine::Content
    }
}

/// The line state behind the first bytes of the input.
pub open spec fn line_at(input: Seq<u8>, length: nat) -> ScanLine
    decreases length,
{
    if length == 0 {
        ScanLine::Leading
    } else {
        next_line(line_at(input, (length - 1) as nat), input[length - 1])
    }
}

/// Whether the head ends with this byte.
pub open spec fn ends_at(input: Seq<u8>, index: int) -> bool {
    input[index] == LF && (line_at(input, index as nat) == ScanLine::End || line_at(
        input,
        index as nat,
    ) == ScanLine::EndCr)
}

/// The length of the head at the start of the input, searched from a byte on.
pub open spec fn head_end_from(input: Seq<u8>, from: nat) -> Option<nat>
    decreases input.len() - from,
{
    if from >= input.len() {
        None
    } else if ends_at(input, from as int) {
        Some(from + 1)
    } else {
        head_end_from(input, from + 1)
    }
}

/// The length of the head at the start of the input, `None` where it does not
/// end.
pub open spec fn head_end(input: Seq<u8>) -> Option<nat> {
    head_end_from(input, 0)
}

impl HeadScan {
    /// Whether the scan goes with an input: what it has seen is the start of the
    /// input. An input shorter than what was seen starts the scan over.
    pub open spec fn follows(self, input: Seq<u8>) -> bool {
        match self {
            HeadScan::Scanning { scanned, line } => scanned <= input.len() ==> line == line_at(
                input,
                scanned as nat,
            ) && forall|i: int| 0 <= i < scanned ==> !ends_at(input, i),
            HeadScan::Complete { length } => length <= input.len() ==> head_end(input) == Some(
                length as nat,
            ),
        }
    }

    pub fn new() -> (result: Self)
        ensures
            result == (HeadScan::Scanning { scanned: 0, line: ScanLine::Leading }),
            forall|input: Seq<u8>| result.follows(input),
    {
        HeadScan::Scanning { scanned: 0, line: ScanLine::Leading }
    }

    /// Finds the end of the head. Only bytes that were not seen before are looked
    /// at.
    pub fn complete(&mut self, input: &[u8]) -> (result: Option<usize>)
        ensures
            old(self).follows(input@) ==> match result {
                Some(length) => head_end(input@) == Some(length as nat) && length <= input.len(),
                None => head_end(input@) is None,
            },
            old(self).follows(input@) ==> forall|more: Seq<u8>|
                final(self).follows(#[trigger] (input@ + more)),
            old(self).follows(input@) ==> final(self).follows(input@),
            result matches Some(length) ==> *final(self) == (HeadScan::Complete { length }),
            result matches Some(length) ==> length <= input.len(),
    {
        let ghost known = self.follows(input@);
        let mut scanned: usize = 0;
        let mut line = ScanLine::Leading;
        match *self {
            HeadScan::Scanning { scanned: seen, line: at } => {
                if seen <= input.len() {
                    scanned = seen;
                    line = at;
                }
            },
            HeadScan::Complete { length } => {
                if length <= input.len() {
                    proof {
                        if known {
                            assert forall|more: Seq<u8>| self.follows(#[trigger] (input@
                                + more)) by {
                                found_in_longer(input@, more);
                            }
                        }
                    }
                    return Some(length);
                }
            },
        }
        proof {
            if known {
                skip_to(input@, scanned as nat);
            }
        }
        while scanned < input.len()
            invariant
                scanned <= input.len(),
                known == old(self).follows(input@),
                known ==> line == line_at(input@, scanned as nat),
                known ==> forall|i: int| 0 <= i < scanned ==> !ends_at(input@, i),
                known ==> head_end(input@) == head_end_from(input@, scanned as nat),
            decreases input.len() - scanned,
        {
            let byte = input[scanned];
            let ending = line == ScanLine::End || line == ScanLine::EndCr;
            if byte == LF && ending {
                let length: usize = scanned + 1;
                *self = HeadScan::Complete { length };
                proof {
                    if known {
                        assert forall|more: Seq<u8>| self.follows(#[trigger] (input@ + more)) by {
                            found_in_longer(input@, more);
                        }
                    }
                }
                return Some(length);
            }
            line = if line == ScanLine::Leading && (byte == CR || byte == LF) {
                ScanLine::Leading
            } else if line == ScanLine::End && byte == CR {
                ScanLine::EndCr
            } else if byte == LF {
                ScanLine::End
            } else {
                ScanLine::Content
            };
            scanned = scanned + 1;
        }
        *self = HeadScan::Scanning { scanned, line };
        proof {
            if known {
                assert forall|more: Seq<u8>| self.follows(#[trigger] (input@ + more)) by {
                    let whole = input@ + more;
                    line_at_prefix(input@, more, scanned as nat);
                    assert forall|i: int| 0 <= i < scanned implies !ends_at(whole, i) by {
                        line_at_prefix(input@, more, i as nat);
                        assert(!ends_at(input@, i));
                    }
                }
            }
        }
        None
    }
}

/// The line state depends only on the bytes before it.
pub proof fn line_at_prefix(input: Seq<u8>, more: Seq<u8>, length: nat)
    requires
        length <= input.len(),
    ensures
        line_at(input + more, length) == line_at(input, length),
    decreases length,
{
    if length > 0 {
        line_at_prefix(input, more, (length - 1) as nat);
        assert((input + more)[length - 1] == input[length - 1]);
    }
}

proof fn skip_to(input: Seq<u8>, from: nat)
    requires
        from <= input.len(),
        forall|i: int| 0 <= i < from ==> !ends_at(input, i),
    ensures
        head_end(input) == head_end_from(input, from),
    decreases from,
{
    if from > 0 {
        skip_to(input, (from - 1) as nat);
        assert(!ends_at(input, from - 1));
    }
}

proof fn head_end_bounds(input: Seq<u8>, from: nat)
    ensures
        head_end_from(input, from) matches Some(length) ==> from < length <= input.len() && ends_at(
            input,
            length - 1,
        ) && forall|i: int| from <= i < length - 1 ==> !ends_at(input, i),
        head_end_from(input, from) is None ==> forall|i: int|
            from <= i < input.len() ==> !ends_at(input, i),
    decreases input.len() - from,
{
    if from < input.len() && !ends_at(input, from as int) {
        head_end_bounds(input, from + 1);
    }
}

/// A head that has ended stays where it is: bytes behind it do not change its
/// length.
pub proof fn found_in_longer(input: Seq<u8>, more: Seq<u8>)
    ensures
        head_end(input) is Some ==> head_end(input + more) == head_end(input) && head_end(
            input,
        )->0 <= input.len(),
{
    let whole = input + more;
    head_end_bounds(input, 0);
    if let Some(length) = head_end(input) {
        assert forall|i: int| 0 <= i < length - 1 implies !ends_at(whole, i) by {
            line_at_prefix(input, more, i as nat);
            assert(!ends_at(input, i));
        }
        line_at_prefix(input, more, (length - 1) as nat);
        assert(ends_at(whole, length - 1));
        skip_to(whole, (length - 1) as nat);
    }
}

/// The number of line-end bytes in front of the start line.
pub open spec fn leading(input: Seq<u8>) -> nat
    decreases input.len(),
{
    if input.len() > 0 && (input[0] == CR || input[0] == LF) {
        1 + leading(input.skip(1))
    } else {
        0
    }
}

proof fn leading_bounds(input: Seq<u8>)
    ensures
        leading(input) <= input.len(),
        forall|i: int| 0 <= i < leading(input) ==> input[i] == CR || input[i] == LF,
        leading(input) < input.len() ==> input[leading(input) as int] != CR
            && input[leading(input) as int] != LF,
    decreases input.len(),
{
    if input.len() > 0 && (input[0] == CR || input[0] == LF) {
        let rest = input.skip(1);
        leading_bounds(rest);
        assert forall|i: int| 0 <= i < leading(input) implies input[i] == CR || input[i] == LF by {
            if i > 0 {
                assert(rest[i - 1] == input[i]);
            }
        }
    }
}

proof fn line_at_is(input: Seq<u8>, length: nat)
    requires
        length <= input.len(),
    ensures
        (line_at(input, length) == ScanLine::Leading) == (length <= leading(input)),
        (line_at(input, length) == ScanLine::End) == (length > leading(input) && input[length - 1]
            == LF),
        (line_at(input, length) == ScanLine::EndCr) == (length > leading(input) + 1 && input[length
            - 1] == CR && input[length - 2] == LF),
    decreases length,
{
    leading_bounds(input);
    if length > 0 {
        line_at_is(input, (length - 1) as nat);
    }
}

/// A head ends with the first empty line behind its start line; empty lines in
/// front of the start line do not count. Both line ends are known, with and
/// without a carriage return.
pub proof fn head_ends_with_empty_line(input: Seq<u8>, index: int)
    requires
        0 <= index < input.len(),
    ensures
        ends_at(input, index) <==> {
            &&& input[index] == LF
            &&& {
                ||| index > leading(input) && input[index - 1] == LF
                ||| index > leading(input) + 1 && input[index - 1] == CR && input[index - 2] == LF
            }
        },
{
    line_at_is(input, index as nat);
}

/// A head that has ended does so with a line feed.
pub proof fn head_ends_with_its_line(input: Seq<u8>)
    ensures
        head_end(input) matches Some(length) ==> 0 < length <= input.len() && input[length - 1]
            == LF,
{
    head_end_bounds(input, 0);
}

/// Whether an empty line ends with this byte, behind a line that starts at `first`.
pub open spec fn empty_line_behind(input: Seq<u8>, first: int, index: int) -> bool {
    &&& input[index] == LF
    &&& {
        ||| index > first && input[index - 1] == LF
        ||| index > first + 1 && input[index - 1] == CR && input[index - 2] == LF
    }
}

/// A head that starts with this byte, behind line ends alone, has ended exactly where an
/// empty line follows it, and ends with the first of them.
pub proof fn first_empty_line_ends_the_head(input: Seq<u8>, first: int)
    requires
        0 <= first < input.len(),
        input[first] != CR && input[first] != LF,
        forall|i: int| 0 <= i < first ==> #[trigger] input[i] == CR || input[i] == LF,
    ensures
        head_end(input) matches Some(length) ==> 0 < length <= input.len() && empty_line_behind(
            input,
            first,
            length - 1,
        ),
        head_end(input) matches Some(length) ==> forall|i: int|
            0 <= i < length - 1 ==> !#[trigger] empty_line_behind(input, first, i),
        head_end(input) is None ==> forall|i: int|
            0 <= i < input.len() ==> !#[trigger] empty_line_behind(input, first, i),
{
    leading_bounds(input);
    let count = leading(input) as int;
    if count < first {
        assert(input[count] == CR || input[count] == LF);
    }
    if first < count {
        assert(input[first] == CR || input[first] == LF);
    }
    head_end_bounds(input, 0);
    assert forall|i: int| 0 <= i < input.len() implies ends_at(input, i)
        == #[trigger] empty_line_behind(input, first, i) by {
        head_ends_with_empty_line(input, i);
    }
}

} // verus!
