//! What holds of body decoding over any number of calls.

use crate::ascii::{CR, LF};
use crate::proto::h1::decode::{
    self, ChunkState, DecodeError, DecodeLimits, DecodeOutcome, DecoderState, OutcomeView, Step,
};
use vstd::prelude::*;

verus! {

/// How a run over the bytes at hand ends.
pub enum RunEnd {
    /// More input is needed in this state.
    Pending { state: DecoderState },
    /// The body has ended, with trailer fields where it is chunked.
    Finished { trailers: Option<Seq<(Seq<u8>, Seq<Seq<u8>>)>> },
    /// The body is refused.
    Failed { error: DecodeError },
}

/// Every step that can be taken on the bytes at hand: the payload found, the
/// number of bytes used up (none count where the body is refused), and how it
/// ends.
pub struct Run {
    pub data: Seq<u8>,
    pub used: nat,
    pub end: RunEnd,
}

impl Run {
    /// The run with payload found before it.
    pub open spec fn after(self, data: Seq<u8>, used: nat) -> Run {
        Run {
            data: data + self.data,
            used: if self.end is Failed {
                0
            } else {
                used + self.used
            },
            end: self.end,
        }
    }
}

pub open spec fn in_data(state: DecoderState) -> nat {
    match state {
        DecoderState::Chunked(ChunkState::Data { .. }) => 1,
        _ => 0,
    }
}

/// The step of a decoder, folded up.
#[verifier::opaque]
pub open spec fn taken(
    state: DecoderState,
    limits: DecodeLimits,
    input: Seq<u8>,
    eof: bool,
) -> Step {
    decode::step(state, limits, input, eof)
}

/// A payload range is within the input, and a step that uses up nothing leaves
/// the payload of a chunk.
pub proof fn data_progress(state: DecoderState, limits: DecodeLimits, input: Seq<u8>, eof: bool)
    ensures
        taken(state, limits, input, eof).outcome matches Ok(
            OutcomeView::Data { start, end, consumed },
        ) ==> start <= end == consumed <= input.len() && (consumed == 0 ==> in_data(state) == 1
            && in_data(taken(state, limits, input, eof).state) == 0),
{
    reveal(taken);
    line_stop_bounds(input, 0);
    line_stop_bounds(input.skip(2), 0);
    if let DecoderState::Chunked(ChunkState::Size { scanned }) = state {
        line_stop_bounds(input.skip(0), scanned as nat);
        line_stop_bounds(input.skip(0), 0);
    }
}

/// All the steps that the bytes at hand allow.
pub open spec fn run(
    state: DecoderState,
    limits: DecodeLimits,
    input: Seq<u8>,
    eof: bool,
) -> Run
    decreases input.len(), in_data(state),
{
    let now = taken(state, limits, input, eof);
    proof {
        data_progress(state, limits, input, eof);
    }
    match now.outcome {
        Ok(OutcomeView::Data { start, end, consumed }) => run(
            now.state,
            limits,
            input.skip(consumed as int),
            eof,
        ).after(input.subrange(start as int, end as int), consumed),
        Ok(OutcomeView::NeedMore { consumed }) => Run {
            data: Seq::empty(),
            used: consumed,
            end: RunEnd::Pending { state: now.state },
        },
        Ok(OutcomeView::Trailers { trailers, consumed }) => Run {
            data: Seq::empty(),
            used: consumed,
            end: RunEnd::Finished { trailers: Some(trailers) },
        },
        Ok(OutcomeView::End { consumed }) => Run {
            data: Seq::empty(),
            used: consumed,
            end: RunEnd::Finished { trailers: None },
        },
        Err(error) => Run { data: Seq::empty(), used: 0, end: RunEnd::Failed { error } },
    }
}

/// Whether a state goes with the bytes kept from the last look: what it has
/// scanned holds no end of the line or section that it looks for.
pub open spec fn follows(state: DecoderState, limits: DecodeLimits, input: Seq<u8>) -> bool {
    match state {
        DecoderState::Chunked(ChunkState::Size { scanned }) => {
            &&& scanned <= input.len()
            &&& forall|i: int| 0 <= i < scanned ==> !decode::line_stops(input, i)
        },
        DecoderState::Chunked(ChunkState::Trailers { scanned }) => decode::no_section_end(
            input,
            scanned as nat,
        ),
        _ => true,
    }
}

proof fn line_stop_bounds(input: Seq<u8>, from: nat)
    ensures
        from <= input.len() ==> from <= decode::line_stop(input, from) <= input.len(),
        decode::line_stop(input, from) <= input.len(),
        decode::line_stop(input, from) < input.len() ==> decode::line_stops(input, decode::line_stop(input, from) as int),
        forall|i: int| from <= i < decode::line_stop(input, from) ==> !decode::line_stops(input, i),
    decreases input.len() - from,
{
    if from < input.len() && !decode::line_stops(input, from as int) {
        line_stop_bounds(input, from + 1);
    }
}

/// The first stop is the only index with no stop before it.
pub proof fn line_stop_is(input: Seq<u8>, from: nat, stop: nat)
    requires
        from <= stop <= input.len(),
        stop < input.len() ==> decode::line_stops(input, stop as int),
        forall|i: int| from <= i < stop ==> !decode::line_stops(input, i),
    ensures
        decode::line_stop(input, from) == stop,
{
    line_stop_bounds(input, from);
}

proof fn empty_line_bounds(input: Seq<u8>, from: nat, bound: nat)
    ensures
        from <= bound ==> from <= decode::empty_line(input, from, bound) <= bound,
        decode::empty_line(input, from, bound) <= bound,
        from <= bound && decode::empty_line(input, from, bound) < bound ==> decode::ends_empty_line(
            input,
            decode::empty_line(input, from, bound) as int,
        ),
        forall|i: int| from <= i < decode::empty_line(input, from, bound) ==> !decode::ends_empty_line(input, i),
    decreases bound - from,
{
    if from < bound && !decode::ends_empty_line(input, from as int) {
        empty_line_bounds(input, from + 1, bound);
    }
}

pub proof fn empty_line_is(input: Seq<u8>, from: nat, bound: nat, stop: nat)
    requires
        from <= stop <= bound,
        stop < bound ==> decode::ends_empty_line(input, stop as int),
        forall|i: int| from <= i < stop ==> !decode::ends_empty_line(input, i),
    ensures
        decode::empty_line(input, from, bound) == stop,
{
    empty_line_bounds(input, from, bound);
}

/// What has been scanned before does not change what is found.
proof fn scanned_line(limits: DecodeLimits, scanned: usize, input: Seq<u8>, limit: nat)
    requires
        follows(DecoderState::Chunked(ChunkState::Size { scanned }), limits, input),
    ensures
        decode::chunk_line(input, scanned as nat, limit) == decode::chunk_line(input, 0, limit),
{
    line_stop_bounds(input, scanned as nat);
    line_stop_is(input, 0, decode::line_stop(input, scanned as nat));
}

/// What has been scanned before does not change which trailer section is found.
pub proof fn scanned_section(scanned: nat, input: Seq<u8>, limit: nat)
    requires
        decode::no_section_end(input, scanned),
    ensures
        decode::trailer_section(input, scanned, limit) == decode::trailer_section(input, 0, limit),
{
    let bound = decode::at_most(input.len(), limit);
    let from = decode::at_most(scanned, bound);
    empty_line_bounds(input, from, bound);
    empty_line_is(input, 0, bound, decode::empty_line(input, from, bound));
}

proof fn scanned_runs(state: DecoderState, limits: DecodeLimits, input: Seq<u8>, eof: bool)
    requires
        follows(state, limits, input),
    ensures
        state matches DecoderState::Chunked(ChunkState::Size { scanned }) ==> run(
            state,
            limits,
            input,
            eof,
        ) == run(DecoderState::Chunked(ChunkState::Size { scanned: 0 }), limits, input, eof),
        state matches DecoderState::Chunked(ChunkState::Trailers { scanned }) ==> run(
            state,
            limits,
            input,
            eof,
        ) == run(DecoderState::Chunked(ChunkState::Trailers { scanned: 0 }), limits, input, eof),
{
    reveal(taken);
    assert(input.skip(0) =~= input);
    match state {
        DecoderState::Chunked(ChunkState::Size { scanned }) => {
            scanned_line(limits, scanned, input, limits.max_chunk_line_bytes as nat);
        },
        DecoderState::Chunked(ChunkState::Trailers { scanned }) => {
            scanned_section(scanned as nat, input, limits.max_trailer_bytes as nat);
        },
        _ => {},
    }
}

/// The outcome with its positions counted from an earlier byte.
spec fn shifted(outcome: Result<OutcomeView, DecodeError>, by: nat) -> Result<
    OutcomeView,
    DecodeError,
> {
    match outcome {
        Ok(OutcomeView::NeedMore { consumed }) => Ok(
            OutcomeView::NeedMore { consumed: consumed + by },
        ),
        Ok(OutcomeView::Data { start, end, consumed }) => Ok(
            OutcomeView::Data { start: start + by, end: end + by, consumed: consumed + by },
        ),
        Ok(OutcomeView::Trailers { trailers, consumed }) => Ok(
            OutcomeView::Trailers { trailers, consumed: consumed + by },
        ),
        Ok(OutcomeView::End { consumed }) => Ok(OutcomeView::End { consumed: consumed + by }),
        Err(error) => Err(error),
    }
}

/// Two steps that differ only in where positions are counted from.
spec fn same_but_shifted(there: Step, here: Step, by: nat) -> bool {
    there.state == here.state && there.outcome == shifted(here.outcome, by)
}

proof fn data_from_cursor(remaining: u64, input: Seq<u8>, cursor: nat, eof: bool)
    requires
        cursor <= input.len(),
    ensures
        same_but_shifted(
            decode::data_step(remaining, input, cursor, eof),
            decode::data_step(remaining, input.skip(cursor as int), 0, eof),
            cursor,
        ),
{
}

proof fn trailers_from_cursor(
    limits: DecodeLimits,
    scanned: nat,
    input: Seq<u8>,
    cursor: nat,
    eof: bool,
)
    requires
        cursor <= input.len(),
    ensures
        same_but_shifted(
            decode::trailers_step(limits, scanned, input, cursor, eof),
            decode::trailers_step(limits, scanned, input.skip(cursor as int), 0, eof),
            cursor,
        ),
{
    let rest = input.skip(cursor as int);
    assert(rest.skip(0) =~= rest);
}

/// Shifts add up.
proof fn shifts_compose(far: Step, near: Step, here: Step, cursor: nat, length: nat)
    requires
        same_but_shifted(far, here, cursor + length),
        same_but_shifted(near, here, length),
    ensures
        same_but_shifted(far, near, cursor),
{
}

/// A step from a cursor is the step on the bytes from there on.
#[verifier::spinoff_prover]
#[verifier::rlimit(40)]
proof fn size_from_cursor(
    limits: DecodeLimits,
    scanned: nat,
    input: Seq<u8>,
    cursor: nat,
    eof: bool,
)
    requires
        cursor <= input.len(),
    ensures
        same_but_shifted(
            decode::size_step(limits, scanned, input, cursor, eof),
            decode::size_step(limits, scanned, input.skip(cursor as int), 0, eof),
            cursor,
        ),
{
    let rest = input.skip(cursor as int);
    assert(rest.skip(0) =~= rest);
    let found = decode::chunk_line(rest, scanned, limits.max_chunk_line_bytes as nat);
    line_stop_bounds(rest, 0);
    line_stop_bounds(rest, scanned);
    if let Ok(Some((size, length))) = found {
        assert(length <= rest.len());
        assert(input.skip((cursor + length) as int) =~= rest.skip(length as int));
        if size == 0 {
            trailers_from_cursor(limits, 0, input, cursor + length, eof);
            trailers_from_cursor(limits, 0, rest, length, eof);
            shifts_compose(
                decode::trailers_step(limits, 0, input, cursor + length, eof),
                decode::trailers_step(limits, 0, rest, length, eof),
                decode::trailers_step(limits, 0, rest.skip(length as int), 0, eof),
                cursor,
                length,
            );
        } else {
            data_from_cursor(size, input, cursor + length, eof);
            data_from_cursor(size, rest, length, eof);
            shifts_compose(
                decode::data_step(size, input, cursor + length, eof),
                decode::data_step(size, rest, length, eof),
                decode::data_step(size, rest.skip(length as int), 0, eof),
                cursor,
                length,
            );
        }
    }
}

/// A run goes on behind a chunk line with what the line announces.
pub proof fn run_past_line(
    scanned: usize,
    limits: DecodeLimits,
    input: Seq<u8>,
    eof: bool,
    size: u64,
    length: nat,
)
    requires
        decode::chunk_line(input, scanned as nat, limits.max_chunk_line_bytes as nat) == Ok::<
            _,
            DecodeError,
        >(Some((size, length))),
    ensures
        2 <= length <= input.len(),
        run(DecoderState::Chunked(ChunkState::Size { scanned }), limits, input, eof) == run(
            announced(size),
            limits,
            input.skip(length as int),
            eof,
        ).after(Seq::empty(), length),
{
    line_stop_bounds(input, 0);
    line_stop_bounds(input, scanned as nat);
    assert(input.skip(0) =~= input);
    assert(input.skip(length as int).skip(0) =~= input.skip(length as int));
    if size == 0 {
        trailers_from_cursor(limits, 0, input, length, eof);
    } else {
        data_from_cursor(size, input, length, eof);
    }
    assert(same_but_shifted(
        taken(DecoderState::Chunked(ChunkState::Size { scanned }), limits, input, eof),
        taken(announced(size), limits, input.skip(length as int), eof),
        length,
    )) by {
        reveal(taken);
    }
    run_shifted(
        DecoderState::Chunked(ChunkState::Size { scanned }),
        announced(size),
        limits,
        input,
        length,
        eof,
    );
}

/// What follows a chunk line.
pub open spec fn announced(size: u64) -> DecoderState {
    DecoderState::Chunked(
        if size == 0 {
            ChunkState::Trailers { scanned: 0 }
        } else {
            ChunkState::Data { remaining: size }
        },
    )
}

proof fn run_shifted(
    state: DecoderState,
    next: DecoderState,
    limits: DecodeLimits,
    input: Seq<u8>,
    by: nat,
    eof: bool,
)
    requires
        by <= input.len(),
        same_but_shifted(
            taken(state, limits, input, eof),
            taken(next, limits, input.skip(by as int), eof),
            by,
        ),
    ensures
        run(state, limits, input, eof) == run(next, limits, input.skip(by as int), eof).after(
            Seq::empty(),
            by,
        ),
{
    let rest = input.skip(by as int);
    let now = taken(next, limits, rest, eof);
    data_progress(next, limits, rest, eof);
    data_progress(state, limits, input, eof);
    match now.outcome {
        Ok(OutcomeView::Data { start, end, consumed }) => {
            assert(input.skip((by + consumed) as int) =~= rest.skip(consumed as int));
            assert(input.subrange((start + by) as int, (end + by) as int) =~= rest.subrange(
                start as int,
                end as int,
            ));
            let tail = run(now.state, limits, rest.skip(consumed as int), eof);
            assert(run(next, limits, rest, eof) == tail.after(
                rest.subrange(start as int, end as int),
                consumed,
            ));
            assert(Seq::<u8>::empty() + (rest.subrange(start as int, end as int) + tail.data)
                =~= rest.subrange(start as int, end as int) + tail.data);
        },
        _ => {
            assert(Seq::<u8>::empty() + Seq::<u8>::empty() =~= Seq::<u8>::empty());
        },
    }
}

/// A run goes on behind the line end of a chunk with the next chunk line.
pub proof fn run_past_crlf(limits: DecodeLimits, input: Seq<u8>, eof: bool)
    requires
        input.len() >= 2,
        input[0] == CR,
        input[1] == LF,
    ensures
        run(DecoderState::Chunked(ChunkState::DataCrlf), limits, input, eof) == run(
            DecoderState::Chunked(ChunkState::Size { scanned: 0 }),
            limits,
            input.skip(2),
            eof,
        ).after(Seq::empty(), 2),
{
    assert(input.skip(0) =~= input);
    size_from_cursor(limits, 0, input, 2, eof);
    assert(same_but_shifted(
        taken(DecoderState::Chunked(ChunkState::DataCrlf), limits, input, eof),
        taken(
            DecoderState::Chunked(ChunkState::Size { scanned: 0 }),
            limits,
            input.skip(2),
            eof,
        ),
        2,
    )) by {
        reveal(taken);
        assert(input.skip(2).skip(0) =~= input.skip(2));
    }
    run_shifted(
        DecoderState::Chunked(ChunkState::DataCrlf),
        DecoderState::Chunked(ChunkState::Size { scanned: 0 }),
        limits,
        input,
        2,
        eof,
    );
}

proof fn taken_in_data(remaining: u64, limits: DecodeLimits, input: Seq<u8>, eof: bool)
    ensures
        taken(DecoderState::Chunked(ChunkState::Data { remaining }), limits, input, eof)
            == decode::data_step(remaining, input, 0, eof),
{
    reveal(taken);
}

/// The payload of a chunk may be cut anywhere: taking `first` and then the rest
/// is taking both at once.
pub proof fn run_splits_data(
    remaining: u64,
    limits: DecodeLimits,
    first: Seq<u8>,
    second: Seq<u8>,
    eof: bool,
)
    requires
        0 < first.len() <= remaining,
    ensures
        run(
            DecoderState::Chunked(ChunkState::Data { remaining }),
            limits,
            first + second,
            eof,
        ) == run(past_data(remaining, first.len()), limits, second, eof).after(
            first,
            first.len(),
        ),
{
    let start = DecoderState::Chunked(ChunkState::Data { remaining });
    let whole = first + second;
    taken_in_data(remaining, limits, whole, eof);
    if first.len() == remaining {
        assert(whole.subrange(0, first.len() as int) =~= first);
        assert(whole.skip(first.len() as int) =~= second);
    } else if second.len() == 0 {
        assert(whole =~= first);
        assert(whole.subrange(0, first.len() as int) =~= first);
        assert(whole.skip(first.len() as int) =~= second);
    } else {
        let left = (remaining - first.len()) as u64;
        let count = decode::at_most(second.len(), left as nat);
        taken_in_data(left, limits, second, eof);
        assert(whole.skip((first.len() + count) as int) =~= second.skip(count as int));
        assert(whole.subrange(0, (first.len() + count) as int) =~= first + second.subrange(
            0,
            count as int,
        ));
        let tail = run(past_data(left, count), limits, second.skip(count as int), eof);
        assert(run(start, limits, whole, eof) == tail.after(
            first + second.subrange(0, count as int),
            first.len() + count,
        ));
        assert(run(past_data(remaining, first.len()), limits, second, eof) == tail.after(
            second.subrange(0, count as int),
            count,
        ));
        assert((first + second.subrange(0, count as int)) + tail.data =~= first + (
        second.subrange(0, count as int) + tail.data));
    }
}

/// The state behind so many payload bytes of a chunk.
pub open spec fn past_data(remaining: u64, count: nat) -> DecoderState {
    DecoderState::Chunked(
        if count == remaining {
            ChunkState::DataCrlf
        } else {
            ChunkState::Data { remaining: (remaining - count) as u64 }
        },
    )
}

/// Whether the run over all bytes is what the run over the first ones, gone on
/// with the others, makes of them.
pub open spec fn agrees(
    limits: DecodeLimits,
    part: Run,
    whole: Run,
    first: Seq<u8>,
    second: Seq<u8>,
    eof: bool,
) -> bool {
    match part.end {
        RunEnd::Pending { state } => {
            let rest = first.skip(part.used as int);
            &&& part.used <= first.len()
            &&& follows(state, limits, rest)
            &&& whole == run(state, limits, rest + second, eof).after(part.data, part.used)
        },
        RunEnd::Finished { .. } => whole == part,
        RunEnd::Failed { .. } => whole.end is Failed && whole.data == part.data,
    }
}

/// Agreement reaches back over payload found before.
proof fn agreement_extends(
    limits: DecodeLimits,
    part: Run,
    whole: Run,
    first: Seq<u8>,
    second: Seq<u8>,
    eof: bool,
    data: Seq<u8>,
    used: nat,
)
    requires
        used <= first.len(),
        agrees(limits, part, whole, first.skip(used as int), second, eof),
    ensures
        agrees(limits, part.after(data, used), whole.after(data, used), first, second, eof),
{
    if let RunEnd::Pending { state } = part.end {
        let inner = first.skip(used as int);
        assert(first.skip((used + part.used) as int) =~= inner.skip(part.used as int));
        let rest = run(state, limits, inner.skip(part.used as int) + second, eof);
        assert(data + (part.data + rest.data) =~= (data + part.data) + rest.data);
    }
}

/// Nothing happens on the first bytes, so all happens on all of them.
proof fn nothing_yet(
    state: DecoderState,
    limits: DecodeLimits,
    first: Seq<u8>,
    second: Seq<u8>,
    eof: bool,
    whole: Run,
)
    requires
        follows(state, limits, first),
        whole == run(state, limits, first + second, eof),
    ensures
        agrees(
            limits,
            Run { data: Seq::empty(), used: 0, end: RunEnd::Pending { state } },
            whole,
            first,
            second,
            eof,
        ),
{
    assert(first.skip(0) =~= first);
    assert(Seq::<u8>::empty() + whole.data =~= whole.data);
}

proof fn split_line(limits: DecodeLimits, first: Seq<u8>, second: Seq<u8>, limit: nat)
    ensures
        match decode::chunk_line(first, 0, limit) {
            Ok(Some(found)) => decode::chunk_line(first + second, 0, limit) == Ok::<
                _,
                DecodeError,
            >(Some(found)),
            Ok(None) => forall|i: int|
                0 <= i < first.len() ==> !decode::line_stops(first, i) && !decode::line_stops(
                    first + second,
                    i,
                ),
            Err(_) => decode::chunk_line(first + second, 0, limit) is Err,
        },
{
    let whole = first + second;
    line_stop_bounds(first, 0);
    line_stop_bounds(whole, 0);
    assert forall|i: int| 0 <= i < first.len() implies decode::line_stops(first, i)
        == decode::line_stops(whole, i) by {}
    let stop = decode::line_stop(first, 0);
    if stop < first.len() {
        line_stop_is(whole, 0, stop);
        if stop > 0 {
            assert(whole.take(stop - 1) =~= first.take(stop - 1));
        }
    }
}

proof fn split_section(first: Seq<u8>, second: Seq<u8>, limit: nat)
    ensures
        match decode::trailer_section(first, 0, limit) {
            Ok(Some(length)) => decode::trailer_section(first + second, 0, limit) == Ok::<
                _,
                DecodeError,
            >(Some(length)) && length <= first.len() && (first + second).take(length as int)
                == first.take(length as int),
            Ok(None) => first.len() <= limit && forall|i: int|
                0 <= i < first.len() ==> !decode::ends_empty_line(first, i)
                    && !decode::ends_empty_line(first + second, i),
            Err(error) => decode::trailer_section(first + second, 0, limit) == Err::<
                Option<nat>,
                _,
            >(error),
        },
{
    let whole = first + second;
    let bound = decode::at_most(first.len(), limit);
    let wide = decode::at_most(whole.len(), limit);
    empty_line_bounds(first, 0, bound);
    empty_line_bounds(whole, 0, wide);
    assert forall|i: int| 0 <= i < first.len() implies decode::ends_empty_line(first, i)
        == decode::ends_empty_line(whole, i) by {}
    let stop = decode::empty_line(first, 0, bound);
    if stop < bound {
        empty_line_is(whole, 0, wide, stop);
        assert(whole.take((stop + 1) as int) =~= first.take((stop + 1) as int));
    } else if first.len() > limit {
        empty_line_is(whole, 0, wide, stop);
    }
}

/// Fragmentation does not matter: decoding the first bytes of a body and then
/// the rest behind what was kept gives the payload, the trailers and the end
/// that decoding all bytes at once gives. A body that is refused on its first
/// bytes is refused as a whole.
pub proof fn fragments_agree(
    state: DecoderState,
    limits: DecodeLimits,
    first: Seq<u8>,
    second: Seq<u8>,
    eof: bool,
)
    requires
        follows(state, limits, first),
        first.len() <= usize::MAX,
    ensures
        agrees(
            limits,
            run(state, limits, first, false),
            run(state, limits, first + second, eof),
            first,
            second,
            eof,
        ),
    decreases first.len(), in_data(state),
{
    let whole = first + second;
    let part_run = run(state, limits, first, false);
    let whole_run = run(state, limits, whole, eof);
    match state {
        DecoderState::Empty | DecoderState::Done | DecoderState::Failed(_) => {
            reveal(taken);
        },
        DecoderState::Fixed { remaining } => {
            fixed_fragments(remaining, limits, first, second, eof);
        },
        DecoderState::UntilEof => {
            open_fragments(limits, first, second, eof);
        },
        DecoderState::Chunked(ChunkState::Data { remaining }) => {
            if first.len() == 0 {
                assert(part_run == (Run {
                    data: Seq::empty(),
                    used: 0,
                    end: RunEnd::Pending { state },
                })) by {
                    reveal(taken);
                }
                nothing_yet(state, limits, first, second, eof, whole_run);
            } else {
                let count = decode::at_most(first.len(), remaining as nat);
                let data = first.take(count as int);
                let kept = first.skip(count as int);
                let next = past_data(remaining, count);
                assert(data + (kept + second) =~= whole);
                assert(data + kept =~= first);
                if count > 0 {
                    run_splits_data(remaining, limits, data, kept + second, eof);
                    run_splits_data(remaining, limits, data, kept, false);
                } else {
                    reveal(taken);
                    assert(first.subrange(0, 0) =~= data);
                    assert(whole.subrange(0, 0) =~= data);
                    assert(first.skip(0) =~= kept);
                    assert(whole.skip(0) =~= kept + second);
                }
                fragments_agree(next, limits, kept, second, eof);
                agreement_extends(
                    limits,
                    run(next, limits, kept, false),
                    run(next, limits, kept + second, eof),
                    first,
                    second,
                    eof,
                    data,
                    count,
                );
            }
        },
        DecoderState::Chunked(ChunkState::DataCrlf) => {
            assert(first.skip(0) =~= first);
            assert(whole.skip(0) =~= whole);
            if first.len() >= 2 && first[0] == CR && first[1] == LF {
                let next = DecoderState::Chunked(ChunkState::Size { scanned: 0 });
                let kept = first.skip(2);
                run_past_crlf(limits, first, false);
                run_past_crlf(limits, whole, eof);
                assert(whole.skip(2) =~= kept + second);
                fragments_agree(next, limits, kept, second, eof);
                agreement_extends(
                    limits,
                    run(next, limits, kept, false),
                    run(next, limits, kept + second, eof),
                    first,
                    second,
                    eof,
                    Seq::empty(),
                    2,
                );
            } else if first.len() >= 1 && (first[0] != CR || first.len() >= 2) {
                reveal(taken);
            } else {
                assert(part_run == (Run {
                    data: Seq::empty(),
                    used: 0,
                    end: RunEnd::Pending { state },
                })) by {
                    reveal(taken);
                }
                nothing_yet(state, limits, first, second, eof, whole_run);
            }
        },
        DecoderState::Chunked(ChunkState::Size { scanned }) => {
            line_fragments(scanned, limits, first, second, eof);
            let limit = limits.max_chunk_line_bytes as nat;
            if let Ok(Some((size, length))) = decode::chunk_line(first, 0, limit) {
                let kept = first.skip(length as int);
                split_line(limits, first, second, limit);
                run_past_line(0, limits, first, false, size, length);
                run_past_line(0, limits, whole, eof, size, length);
                assert(whole.skip(length as int) =~= kept + second);
                fragments_agree(announced(size), limits, kept, second, eof);
                agreement_extends(
                    limits,
                    run(announced(size), limits, kept, false),
                    run(announced(size), limits, kept + second, eof),
                    first,
                    second,
                    eof,
                    Seq::empty(),
                    length,
                );
            }
        },
        DecoderState::Chunked(ChunkState::Trailers { scanned }) => {
            section_fragments(scanned, limits, first, second, eof);
        },
    }
}

/// A fixed body takes what it can of the bytes at hand.
proof fn run_fixed(remaining: u64, limits: DecodeLimits, input: Seq<u8>, eof: bool)
    ensures
        ({
            let count = decode::at_most(input.len(), remaining as nat);
            let left = DecoderState::Fixed { remaining: (remaining - count) as u64 };
            &&& count > 0 ==> run(DecoderState::Fixed { remaining }, limits, input, eof) == run(
                left,
                limits,
                input.skip(count as int),
                eof,
            ).after(input.take(count as int), count)
            &&& remaining > 0 && input.len() == 0 && !eof ==> run(
                DecoderState::Fixed { remaining },
                limits,
                input,
                eof,
            ) == (Run {
                data: Seq::empty(),
                used: 0,
                end: RunEnd::Pending { state: DecoderState::Fixed { remaining } },
            })
            &&& remaining == 0 ==> run(DecoderState::Fixed { remaining }, limits, input, eof) == (
            Run { data: Seq::empty(), used: 0, end: RunEnd::Finished { trailers: None } })
        }),
{
    reveal(taken);
    let count = decode::at_most(input.len(), remaining as nat);
    assert(input.subrange(0, count as int) =~= input.take(count as int));
}

proof fn fixed_fragments(
    remaining: u64,
    limits: DecodeLimits,
    first: Seq<u8>,
    second: Seq<u8>,
    eof: bool,
)
    ensures
        agrees(
            limits,
            run(DecoderState::Fixed { remaining }, limits, first, false),
            run(DecoderState::Fixed { remaining }, limits, first + second, eof),
            first,
            second,
            eof,
        ),
{
    let state = DecoderState::Fixed { remaining };
    let whole = first + second;
    let none = Seq::<u8>::empty();
    let count = decode::at_most(first.len(), remaining as nat);
    run_fixed(remaining, limits, first, false);
    run_fixed(remaining, limits, whole, eof);
    if remaining == 0 {
    } else if first.len() == 0 {
        nothing_yet(state, limits, first, second, eof, run(state, limits, whole, eof));
    } else if count == remaining {
        run_fixed(0, limits, first.skip(count as int), false);
        run_fixed(0, limits, whole.skip(count as int), eof);
        assert(whole.take(count as int) =~= first.take(count as int));
    } else {
        let left = (remaining - count) as u64;
        assert(first.skip(count as int) =~= none);
        assert(none + second =~= second);
        assert(first.take(count as int) =~= first);
        assert(first + none =~= first);
        run_fixed(left, limits, none, false);
        if second.len() == 0 {
            assert(whole =~= first);
            assert(whole.skip(count as int) =~= second);
        } else {
            let more = decode::at_most(second.len(), left as nat);
            let tail = run(
                DecoderState::Fixed { remaining: (left - more) as u64 },
                limits,
                second.skip(more as int),
                eof,
            );
            run_fixed(left, limits, second, eof);
            assert(whole.take((count + more) as int) =~= first + second.take(more as int));
            assert(whole.skip((count + more) as int) =~= second.skip(more as int));
            assert((first + second.take(more as int)) + tail.data =~= first + (second.take(
                more as int,
            ) + tail.data));
        }
    }
}

proof fn open_fragments(limits: DecodeLimits, first: Seq<u8>, second: Seq<u8>, eof: bool)
    ensures
        agrees(
            limits,
            run(DecoderState::UntilEof, limits, first, false),
            run(DecoderState::UntilEof, limits, first + second, eof),
            first,
            second,
            eof,
        ),
{
    reveal(taken);
    let state = DecoderState::UntilEof;
    let whole = first + second;
    if first.len() == 0 {
        nothing_yet(state, limits, first, second, eof, run(state, limits, whole, eof));
    } else {
        let none = Seq::<u8>::empty();
        let last = if eof {
            DecoderState::Done
        } else {
            state
        };
        assert(first.subrange(0, first.len() as int) =~= first);
        assert(first.skip(first.len() as int) =~= none);
        assert(first + none =~= first);
        assert(none + second =~= second);
        assert(run(state, limits, first, false) == (Run {
            data: first,
            used: first.len(),
            end: RunEnd::Pending { state },
        }));
        assert(whole.subrange(0, whole.len() as int) =~= whole);
        assert(whole.skip(whole.len() as int) =~= none);
        assert(run(state, limits, whole, eof) == run(last, limits, none, eof).after(
            whole,
            whole.len(),
        ));
        if second.len() > 0 {
            assert(second.subrange(0, second.len() as int) =~= second);
            assert(second.skip(second.len() as int) =~= none);
            assert(run(state, limits, second, eof) == run(last, limits, none, eof).after(
                second,
                second.len(),
            ));
        }
        assert(run(last, limits, none, eof).data == none);
        assert(whole + none =~= first + (second + none));
    }
}

/// The case of a chunk line that does not end on the first bytes, or that is
/// refused on them.
proof fn line_fragments(
    scanned: usize,
    limits: DecodeLimits,
    first: Seq<u8>,
    second: Seq<u8>,
    eof: bool,
)
    requires
        follows(DecoderState::Chunked(ChunkState::Size { scanned }), limits, first),
        first.len() <= usize::MAX,
    ensures
        ({
            let state = DecoderState::Chunked(ChunkState::Size { scanned });
            let fresh = DecoderState::Chunked(ChunkState::Size { scanned: 0 });
            &&& run(state, limits, first, false) == run(fresh, limits, first, false)
            &&& run(state, limits, first + second, eof) == run(fresh, limits, first + second, eof)
            &&& !(decode::chunk_line(first, 0, limits.max_chunk_line_bytes as nat) matches Ok(
                Some(_),
            )) ==> agrees(
                limits,
                run(state, limits, first, false),
                run(state, limits, first + second, eof),
                first,
                second,
                eof,
            )
        }),
{
    let state = DecoderState::Chunked(ChunkState::Size { scanned });
    let whole = first + second;
    let limit = limits.max_chunk_line_bytes as nat;
    assert forall|i: int| 0 <= i < first.len() implies decode::line_stops(first, i)
        == decode::line_stops(whole, i) by {}
    scanned_runs(state, limits, first, false);
    scanned_runs(state, limits, whole, eof);
    split_line(limits, first, second, limit);
    assert(first.skip(0) =~= first);
    assert(whole.skip(0) =~= whole);
    match decode::chunk_line(first, 0, limit) {
        Ok(Some(_)) => {},
        Ok(None) => {
            let seen = DecoderState::Chunked(
                ChunkState::Size { scanned: first.len() as usize },
            );
            assert(run(state, limits, first, false) == (Run {
                data: Seq::empty(),
                used: 0,
                end: RunEnd::Pending { state: seen },
            })) by {
                reveal(taken);
            }
            scanned_runs(seen, limits, whole, eof);
            nothing_yet(seen, limits, first, second, eof, run(state, limits, whole, eof));
        },
        Err(_) => {
            reveal(taken);
        },
    }
}

proof fn section_fragments(
    scanned: usize,
    limits: DecodeLimits,
    first: Seq<u8>,
    second: Seq<u8>,
    eof: bool,
)
    requires
        follows(DecoderState::Chunked(ChunkState::Trailers { scanned }), limits, first),
        first.len() <= usize::MAX,
    ensures
        ({
            let state = DecoderState::Chunked(ChunkState::Trailers { scanned });
            agrees(
                limits,
                run(state, limits, first, false),
                run(state, limits, first + second, eof),
                first,
                second,
                eof,
            )
        }),
{
    let state = DecoderState::Chunked(ChunkState::Trailers { scanned });
    let whole = first + second;
    let limit = limits.max_trailer_bytes as nat;
    assert forall|i: int| 0 <= i < first.len() implies decode::ends_empty_line(first, i)
        == decode::ends_empty_line(whole, i) by {}
    scanned_runs(state, limits, first, false);
    scanned_runs(state, limits, whole, eof);
    split_section(first, second, limit);
    assert(first.skip(0) =~= first);
    assert(whole.skip(0) =~= whole);
    match decode::trailer_section(first, 0, limit) {
        Ok(None) => {
            let seen = DecoderState::Chunked(
                ChunkState::Trailers { scanned: first.len() as usize },
            );
            assert(run(state, limits, first, false) == (Run {
                data: Seq::empty(),
                used: 0,
                end: RunEnd::Pending { state: seen },
            })) by {
                reveal(taken);
            }
            scanned_runs(seen, limits, whole, eof);
            nothing_yet(seen, limits, first, second, eof, run(state, limits, whole, eof));
        },
        _ => {
            reveal(taken);
        },
    }
}

/// Whether a step that refuses the body keeps the error.
spec fn keeps_error(step: Step) -> bool {
    step.outcome matches Err(error) ==> step.state == DecoderState::Failed(error)
}

proof fn trailers_keep_error(
    limits: DecodeLimits,
    scanned: nat,
    input: Seq<u8>,
    cursor: nat,
    eof: bool,
)
    ensures
        keeps_error(decode::trailers_step(limits, scanned, input, cursor, eof)),
{
}

proof fn lines_keep_error(
    limits: DecodeLimits,
    scanned: nat,
    input: Seq<u8>,
    cursor: nat,
    eof: bool,
)
    ensures
        keeps_error(decode::size_step(limits, scanned, input, cursor, eof)),
{
    let available = input.skip(cursor as int);
    if let Ok(Some((size, length))) = decode::chunk_line(
        available,
        scanned,
        limits.max_chunk_line_bytes as nat,
    ) {
        trailers_keep_error(limits, 0, input, cursor + length, eof);
        assert(keeps_error(decode::data_step(size, input, cursor + length, eof)));
    }
}

proof fn steps_keep_error(state: DecoderState, limits: DecodeLimits, input: Seq<u8>, eof: bool)
    ensures
        keeps_error(decode::step(state, limits, input, eof)),
{
    if let DecoderState::Chunked(chunk) = state {
        match chunk {
            ChunkState::Size { scanned } => {
                lines_keep_error(limits, scanned as nat, input, 0, eof);
            },
            ChunkState::Data { .. } => {},
            ChunkState::DataCrlf => {
                lines_keep_error(limits, 0, input, 2, eof);
            },
            ChunkState::Trailers { scanned } => {
                trailers_keep_error(limits, scanned as nat, input, 0, eof);
            },
        }
    }
}

/// The verdict on a body is final: an error is kept, and a body that was refused
/// or has ended says the same of whatever comes behind it.
pub proof fn verdict_is_final(
    state: DecoderState,
    limits: DecodeLimits,
    input: Seq<u8>,
    eof: bool,
    next: DecoderState,
    result: Result<DecodeOutcome, DecodeError>,
)
    requires
        decode::step(state, limits, input, eof).allows(next, result),
    ensures
        result matches Err(error) ==> next == DecoderState::Failed(error),
        state matches DecoderState::Failed(error) ==> next == state && result == Err::<
            DecodeOutcome,
            DecodeError,
        >(error),
        state == DecoderState::Done ==> next == state && decode::result_view(result) == Ok::<
            OutcomeView,
            DecodeError,
        >(OutcomeView::End { consumed: 0 }),
{
    steps_keep_error(state, limits, input, eof);
}

/// The bytes of several pieces, put together.
pub open spec fn joined(pieces: Seq<Seq<u8>>) -> Seq<u8>
    decreases pieces.len(),
{
    if pieces.len() == 0 {
        Seq::empty()
    } else {
        pieces[0] + joined(pieces.skip(1))
    }
}

/// Every step that can be taken on bytes that come in pieces: each look gets what
/// was kept and the next piece, and drops what it used up. `eof` says that nothing
/// follows the last piece.
pub open spec fn run_pieces(
    state: DecoderState,
    limits: DecodeLimits,
    kept: Seq<u8>,
    pieces: Seq<Seq<u8>>,
    eof: bool,
) -> Run
    decreases pieces.len(),
{
    if pieces.len() == 0 {
        run(state, limits, kept, eof)
    } else {
        let input = kept + pieces[0];
        let part = run(state, limits, input, false);
        match part.end {
            RunEnd::Pending { state: next } => run_pieces(
                next,
                limits,
                input.skip(part.used as int),
                pieces.skip(1),
                eof,
            ).after(part.data, part.used),
            _ => part,
        }
    }
}

/// Whether two runs found the same payload, used up the same bytes and ended in the
/// same way. Where a body is refused, which limit or rule it broke first depends on
/// the bytes at hand.
pub open spec fn same_run(left: Run, right: Run) -> bool {
    ||| left == right
    ||| left.end is Failed && right.end is Failed && left.data == right.data
}

proof fn follows_longer(state: DecoderState, limits: DecodeLimits, kept: Seq<u8>, more: Seq<u8>)
    requires
        follows(state, limits, kept),
    ensures
        follows(state, limits, kept + more),
{
    let whole = kept + more;
    match state {
        DecoderState::Chunked(ChunkState::Size { scanned }) => {
            assert forall|i: int| 0 <= i < scanned implies !decode::line_stops(whole, i) by {
                assert(!decode::line_stops(kept, i));
            }
        },
        DecoderState::Chunked(ChunkState::Trailers { scanned }) => {
            assert forall|i: int| 0 <= i < scanned implies !decode::ends_empty_line(whole, i) by {
                assert(!decode::ends_empty_line(kept, i));
            }
        },
        _ => {},
    }
}

/// However many pieces a body comes in, decoding gives the payload, the trailers,
/// the end and the bytes behind it that decoding all bytes at once gives. A body
/// that is refused in one way is refused in the other.
pub proof fn all_fragments_agree(
    state: DecoderState,
    limits: DecodeLimits,
    kept: Seq<u8>,
    pieces: Seq<Seq<u8>>,
    eof: bool,
)
    requires
        follows(state, limits, kept),
        kept.len() + joined(pieces).len() <= usize::MAX,
    ensures
        same_run(
            run_pieces(state, limits, kept, pieces, eof),
            run(state, limits, kept + joined(pieces), eof),
        ),
    decreases pieces.len(),
{
    if pieces.len() == 0 {
        assert(kept + joined(pieces) =~= kept);
    } else {
        let input = kept + pieces[0];
        let later = pieces.skip(1);
        let part = run(state, limits, input, false);
        follows_longer(state, limits, kept, pieces[0]);
        fragments_agree(state, limits, input, joined(later), eof);
        assert(input + joined(later) =~= kept + joined(pieces));
        if let RunEnd::Pending { state: next } = part.end {
            all_fragments_agree(next, limits, input.skip(part.used as int), later, eof);
        }
    }
}

/// How a body is cut into pieces does not matter: two ways to cut the same bytes
/// give the same payload, trailers and end, and leave the same bytes.
pub proof fn cuts_do_not_matter(
    state: DecoderState,
    limits: DecodeLimits,
    left: Seq<Seq<u8>>,
    right: Seq<Seq<u8>>,
    eof: bool,
)
    requires
        follows(state, limits, Seq::empty()),
        joined(left) == joined(right),
        joined(left).len() <= usize::MAX,
    ensures
        same_run(
            run_pieces(state, limits, Seq::empty(), left, eof),
            run_pieces(state, limits, Seq::empty(), right, eof),
        ),
{
    all_fragments_agree(state, limits, Seq::empty(), left, eof);
    all_fragments_agree(state, limits, Seq::empty(), right, eof);
}

} // verus!
