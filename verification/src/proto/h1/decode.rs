//! Received bodies: where they end and which bytes are payload.

use crate::ascii::{self, same_ignoring_case, CR, EQUALS, LF, SEMICOLON};
use crate::outside::fields;
use crate::outside::wire::{self, SyntaxError};
use crate::proto::h1::codec_laws;
use crate::proto::h1::decode_laws;
use crate::proto::h1::head::{self, own_headers, HeadError, HeaderWorkspace};
use crate::proto::h1::syntax::{self, token_len, trim_end, trim_ows, value_len};
use crate::proto::h1::BodyMode;
use http::HeaderMap;
use std::ops::Range;
use vstd::prelude::*;

verus! {

/// Bounds on what a chunked body may hold besides payload.
#[derive(Clone, Copy, Debug, PartialEq, Eq, Structural)]
pub struct DecodeLimits {
    pub max_chunk_line_bytes: usize,
    pub max_trailer_bytes: usize,
    pub max_trailers: usize,
}

impl DecodeLimits {
    /// Limits of zero would refuse every chunked body.
    pub fn new(chunk_line: usize, trailer_bytes: usize, trailers: usize) -> (result: Self)
        requires
            chunk_line > 0,
            trailer_bytes > 0,
            trailers > 0,
        ensures
            result.max_chunk_line_bytes == chunk_line,
            result.max_trailer_bytes == trailer_bytes,
            result.max_trailers == trailers,
    {
        DecodeLimits {
            max_chunk_line_bytes: chunk_line,
            max_trailer_bytes: trailer_bytes,
            max_trailers: trailers,
        }
    }
}

impl Default for DecodeLimits {
    fn default() -> (result: Self)
        ensures
            result.max_chunk_line_bytes == 8192,
            result.max_trailer_bytes == 16384,
            result.max_trailers == 32,
    {
        DecodeLimits::new(8192, 16384, 32)
    }
}

/// The limit that a body exceeded.
#[derive(Clone, Copy, Debug, PartialEq, Eq, Structural)]
pub enum DecodeLimit {
    ChunkLineBytes,
    TrailerBytes,
    Trailers,
    TrailerMap,
}

/// Why a body is refused.
#[derive(Clone, Copy, Debug, PartialEq, Eq, Structural)]
pub enum DecodeError {
    UnexpectedEof,
    InvalidChunkSize,
    InvalidChunkExtension,
    InvalidChunkTerminator,
    InvalidTrailer,
    ForbiddenTrailer,
    Limit(DecodeLimit),
}

/// What one look at the input yields.
#[derive(Debug, PartialEq, Eq)]
pub enum DecodeOutcome {
    /// The input ends before the next item does.
    NeedMore { consumed: usize },
    /// A run of payload bytes.
    Data { payload: Range<usize>, consumed: usize },
    /// The trailer fields that end a chunked body.
    Trailers { trailers: HeaderMap, consumed: usize },
    /// The body has ended.
    End { consumed: usize },
}

/// A position inside a chunked body.
#[derive(Clone, Copy, Debug, PartialEq, Eq, Structural)]
pub enum ChunkState {
    Size { scanned: usize },
    Data { remaining: u64 },
    DataCrlf,
    Trailers { scanned: usize },
}

/// A position inside a body.
#[derive(Clone, Copy, Debug, PartialEq, Eq, Structural)]
pub enum DecoderState {
    Empty,
    Fixed { remaining: u64 },
    Chunked(ChunkState),
    UntilEof,
    Done,
    Failed(DecodeError),
}

/// The mathematical content of a decode outcome.
pub enum OutcomeView {
    NeedMore { consumed: nat },
    Data { start: nat, end: nat, consumed: nat },
    Trailers { trailers: Seq<(Seq<u8>, Seq<Seq<u8>>)>, consumed: nat },
    End { consumed: nat },
}

impl View for DecodeOutcome {
    type V = OutcomeView;

    open spec fn view(&self) -> OutcomeView {
        match *self {
            DecodeOutcome::NeedMore { consumed } => OutcomeView::NeedMore {
                consumed: consumed as nat,
            },
            DecodeOutcome::Data { payload, consumed } => OutcomeView::Data {
                start: payload.start as nat,
                end: payload.end as nat,
                consumed: consumed as nat,
            },
            DecodeOutcome::Trailers { trailers, consumed } => OutcomeView::Trailers {
                trailers: fields::entries(trailers),
                consumed: consumed as nat,
            },
            DecodeOutcome::End { consumed } => OutcomeView::End { consumed: consumed as nat },
        }
    }
}

/// The state and the outcome that one look at the input leads to. Where
/// `crowded` holds, the trailer fields may be refused instead, as too many.
pub struct Step {
    pub state: DecoderState,
    pub outcome: Result<OutcomeView, DecodeError>,
    pub crowded: bool,
}

impl Step {
    /// Whether a decoder that took this step may be in this state with this
    /// result.
    pub open spec fn allows(
        self,
        state: DecoderState,
        result: Result<DecodeOutcome, DecodeError>,
    ) -> bool {
        ||| (state == self.state && result_view(result) == self.outcome)
        ||| (self.crowded && refuses(state, result, DecodeError::Limit(DecodeLimit::TrailerMap)))
    }
}

pub open spec fn result_view(result: Result<DecodeOutcome, DecodeError>) -> Result<
    OutcomeView,
    DecodeError,
> {
    match result {
        Ok(outcome) => Ok(outcome@),
        Err(error) => Err(error),
    }
}

pub open spec fn refuses(
    state: DecoderState,
    result: Result<DecodeOutcome, DecodeError>,
    error: DecodeError,
) -> bool {
    state == DecoderState::Failed(error) && result is Err && result->Err_0 == error
}

pub open spec fn failed(error: DecodeError) -> Step {
    Step { state: DecoderState::Failed(error), outcome: Err(error), crowded: false }
}

pub open spec fn yields(state: DecoderState, outcome: OutcomeView) -> Step {
    Step { state, outcome: Ok(outcome), crowded: false }
}

/// The value of a hexadecimal digit.
pub open spec fn hex_digit(byte: u8) -> nat {
    if byte <= 0x39 {
        (byte - 0x30) as nat
    } else if byte <= 0x46 {
        (byte - 0x41 + 10) as nat
    } else {
        (byte - 0x61 + 10) as nat
    }
}

/// The number that hexadecimal digits stand for.
pub open spec fn hex_value(digits: Seq<u8>) -> nat
    decreases digits.len(),
{
    if digits.len() == 0 {
        0
    } else {
        16 * hex_value(digits.drop_last()) + hex_digit(digits.last())
    }
}

pub open spec fn all_hex(digits: Seq<u8>) -> bool {
    forall|i: int| 0 <= i < digits.len() ==> ascii::is_hex(#[trigger] digits[i])
}

/// What is left behind the chunk extension that the input starts with, or
/// `None` where it does not start with one that is well formed.
pub open spec fn extension_rest(input: Seq<u8>) -> Option<Seq<u8>> {
    let start = syntax::trimmed(input);
    if start.len() == 0 || start[0] != SEMICOLON {
        None
    } else {
        let name = syntax::trimmed(start.skip(1));
        let length = syntax::token_len_of(name);
        if length == 0 {
            None
        } else {
            let rest = syntax::trimmed(name.skip(length as int));
            if rest.len() > 0 && rest[0] == EQUALS {
                let value = syntax::trimmed(rest.skip(1));
                match syntax::value_len_of(value) {
                    Some(length) => ends_extension(syntax::trimmed(value.skip(length as int))),
                    None => None,
                }
            } else {
                ends_extension(rest)
            }
        }
    }
}

/// An extension is followed by another one or by nothing.
pub open spec fn ends_extension(rest: Seq<u8>) -> Option<Seq<u8>> {
    if rest.len() == 0 || rest[0] == SEMICOLON {
        Some(rest)
    } else {
        None
    }
}

pub proof fn extension_rest_shrinks(input: Seq<u8>)
    ensures
        extension_rest(input) is Some ==> extension_rest(input)->0.len() < input.len(),
{
    let start = syntax::trimmed(input);
    let name = syntax::trimmed(start.skip(1));
    let length = syntax::token_len_of(name);
    let rest = syntax::trimmed(name.skip(length as int));
    let value = syntax::trimmed(rest.skip(1));
    syntax::trimmed_shortens(input);
    syntax::trimmed_shortens(start.skip(1));
    syntax::token_len_bounds(name);
    syntax::trimmed_shortens(name.skip(length as int));
    syntax::trimmed_shortens(rest.skip(1));
    syntax::value_len_bounds(value);
    if syntax::value_len_of(value) is Some {
        syntax::trimmed_shortens(value.skip(syntax::value_len_of(value)->0 as int));
    }
}

/// A sequence of well-formed chunk extensions.
pub open spec fn extensions_valid(input: Seq<u8>) -> bool
    decreases input.len(),
{
    if input.len() == 0 {
        true
    } else {
        proof {
            extension_rest_shrinks(input);
        }
        match extension_rest(input) {
            Some(rest) => extensions_valid(rest),
            None => false,
        }
    }
}

/// The size digits of a chunk line, before its extensions.
pub open spec fn size_digits(line: Seq<u8>) -> Seq<u8> {
    syntax::without_trailing(line.take(ascii::position(line, SEMICOLON) as int))
}

/// The size that a chunk line announces, its line end taken off.
pub open spec fn chunk_size(line: Seq<u8>) -> Result<u64, DecodeError> {
    let digits = size_digits(line);
    if digits.len() == 0 || !all_hex(digits) || hex_value(digits) > u64::MAX {
        Err(DecodeError::InvalidChunkSize)
    } else if !extensions_valid(line.skip(ascii::position(line, SEMICOLON) as int)) {
        Err(DecodeError::InvalidChunkExtension)
    } else {
        Ok(hex_value(digits) as u64)
    }
}

/// Whether a chunk line can go no further at this byte: a line feed, or any byte
/// behind a carriage return.
pub open spec fn line_stops(input: Seq<u8>, index: int) -> bool {
    input[index] == LF || (index > 0 && input[index - 1] == CR)
}

/// The first byte, from `from` on, at which a chunk line stops; the length of
/// the input when there is none.
pub open spec fn line_stop(input: Seq<u8>, from: nat) -> nat
    decreases input.len() - from,
{
    if from >= input.len() {
        input.len()
    } else if line_stops(input, from as int) {
        from
    } else {
        line_stop(input, from + 1)
    }
}

/// Where a scan goes on: at the bytes not seen yet, or from the start when the
/// input is shorter than what was seen.
pub open spec fn resume(scanned: nat, length: nat) -> nat {
    if length < scanned {
        0
    } else {
        scanned
    }
}

/// The size and the length of the chunk line at the start of the input, or
/// `None` where it does not end yet.
pub open spec fn chunk_line(input: Seq<u8>, scanned: nat, limit: nat) -> Result<
    Option<(u64, nat)>,
    DecodeError,
> {
    let stop = line_stop(input, resume(scanned, input.len()));
    if stop >= input.len() {
        if input.len() > limit {
            Err(DecodeError::Limit(DecodeLimit::ChunkLineBytes))
        } else {
            Ok(None)
        }
    } else if input[stop as int] != LF || stop == 0 || input[stop - 1] != CR {
        Err(DecodeError::InvalidChunkSize)
    } else if stop + 1 > limit {
        Err(DecodeError::Limit(DecodeLimit::ChunkLineBytes))
    } else {
        match chunk_size(input.take(stop - 1)) {
            Ok(size) => Ok(Some((size, stop + 1))),
            Err(error) => Err(error),
        }
    }
}

/// Whether the line feed at this byte ends an empty line.
pub open spec fn ends_empty_line(input: Seq<u8>, index: int) -> bool {
    &&& input[index] == LF
    &&& {
        ||| index == 0
        ||| (index == 1 && input[0] == CR)
        ||| input[index - 1] == LF
        ||| (index >= 2 && input[index - 2] == LF && input[index - 1] == CR)
    }
}

/// The first byte, from `from` up to `bound`, that ends an empty line; `bound`
/// when there is none.
pub open spec fn empty_line(input: Seq<u8>, from: nat, bound: nat) -> nat
    decreases bound - from,
{
    if from >= bound {
        bound
    } else if ends_empty_line(input, from as int) {
        from
    } else {
        empty_line(input, from + 1, bound)
    }
}

pub open spec fn at_most(length: nat, bound: nat) -> nat {
    if length < bound {
        length
    } else {
        bound
    }
}

/// The length of the trailer section at the start of the input, or `None` where
/// it does not end yet.
pub open spec fn trailer_section(input: Seq<u8>, scanned: nat, limit: nat) -> Result<
    Option<nat>,
    DecodeError,
> {
    let bound = at_most(input.len(), limit);
    let stop = empty_line(input, at_most(resume(scanned, input.len()), bound), bound);
    if stop < bound {
        Ok(Some(stop + 1))
    } else if input.len() > limit {
        Err(DecodeError::Limit(DecodeLimit::TrailerBytes))
    } else {
        Ok(None)
    }
}

/// Fields that would change how a message is framed, routed, authenticated or
/// read, and so may not come behind its body.
pub open spec fn forbidden_name(name: Seq<u8>) -> bool {
    let name = ascii::lowered(name);
    ||| name == fields::named("transfer-encoding")
    ||| name == fields::named("content-length")
    ||| name == fields::named("host")
    ||| name == fields::named("connection")
    ||| name == fields::named("trailer")
    ||| name == fields::named("te")
    ||| name == fields::named("upgrade")
    ||| name == fields::named("expect")
    ||| name == fields::named("authorization")
    ||| name == fields::named("proxy-authorization")
    ||| name == fields::named("proxy-authenticate")
    ||| name == fields::named("www-authenticate")
    ||| name == fields::named("content-encoding")
    ||| name == fields::named("content-type")
    ||| name == fields::named("content-range")
}

/// Whether no field is one that trailers may not hold.
pub open spec fn trailers_allowed(trailers: Seq<(Seq<u8>, Seq<Seq<u8>>)>) -> bool {
    forall|i: int| 0 <= i < trailers.len() ==> !forbidden_name((#[trigger] trailers[i]).0)
}

/// The trailer fields of a whole trailer section and how much of it they take.
pub open spec fn trailer_fields(block: Seq<u8>, max_trailers: nat) -> Result<
    (nat, Seq<(Seq<u8>, Seq<Seq<u8>>)>),
    DecodeError,
> {
    match wire::parsed_fields(block, head::slots_within(max_trailers, block.len())) {
        Ok(Some((consumed, lines))) => match head::owned_fields(lines) {
            Ok(trailers) => if trailers_allowed(trailers) {
                Ok((consumed, trailers))
            } else {
                Err(DecodeError::ForbiddenTrailer)
            },
            Err(HeadError::Limit(_)) => Err(DecodeError::Limit(DecodeLimit::TrailerMap)),
            Err(_) => Err(DecodeError::InvalidTrailer),
        },
        Ok(None) => Err(DecodeError::InvalidTrailer),
        Err(SyntaxError::TooManyHeaders) => Err(DecodeError::Limit(DecodeLimit::Trailers)),
        Err(_) => Err(DecodeError::InvalidTrailer),
    }
}

/// Plain field lines that a trailer section of these limits may hold.
pub open spec fn plain_trailers(limits: DecodeLimits, lines: Seq<(Seq<u8>, Seq<u8>)>) -> bool {
    &&& wire::plain_fields(lines)
    &&& lines.len() <= limits.max_trailers
    &&& section_text(lines).len() <= limits.max_trailer_bytes
    &&& head::owned_fields(lines) is Ok
    &&& !head::crowded(lines)
    &&& trailers_allowed(head::gathered(lines))
}

/// A trailer section of these field lines.
pub open spec fn section_text(lines: Seq<(Seq<u8>, Seq<u8>)>) -> Seq<u8> {
    wire::field_block(lines) + seq![CR, LF]
}

/// The chunk line that ends the payload.
pub open spec fn last_line() -> Seq<u8> {
    seq![ascii::ZERO, CR, LF]
}

/// Whether the trailer section that the input starts with, where it is one of
/// plain field lines, was read whole and gave those fields.
pub open spec fn gives_trailers_back(
    limits: DecodeLimits,
    input: Seq<u8>,
    before: nat,
    result: Result<DecodeOutcome, DecodeError>,
) -> bool {
    forall|lines: Seq<(Seq<u8>, Seq<u8>)>|
        #![trigger section_text(lines)]
        plain_trailers(limits, lines) && section_text(lines).is_prefix_of(input) ==> (result
            matches Ok(DecodeOutcome::Trailers { trailers, consumed }) && fields::entries(trailers)
            == head::gathered(lines) && consumed == before + section_text(lines).len())
}

/// Whether a trailer section holds so many lines that a map may refuse them.
pub open spec fn trailers_crowded(block: Seq<u8>, max_trailers: nat) -> bool {
    match wire::parsed_fields(block, head::slots_within(max_trailers, block.len())) {
        Ok(Some((consumed, lines))) => head::crowded(lines),
        _ => false,
    }
}

/// The step at payload of which `remaining` bytes are still to come.
pub open spec fn data_step(remaining: u64, input: Seq<u8>, cursor: nat, eof: bool) -> Step {
    if cursor >= input.len() {
        if eof {
            failed(DecodeError::UnexpectedEof)
        } else {
            yields(
                DecoderState::Chunked(ChunkState::Data { remaining }),
                OutcomeView::NeedMore { consumed: cursor },
            )
        }
    } else {
        let count = at_most((input.len() - cursor) as nat, remaining as nat);
        let state = if count == remaining {
            ChunkState::DataCrlf
        } else {
            ChunkState::Data { remaining: (remaining - count) as u64 }
        };
        yields(
            DecoderState::Chunked(state),
            OutcomeView::Data { start: cursor, end: cursor + count, consumed: cursor + count },
        )
    }
}

/// The step at the trailer section.
pub open spec fn trailers_step(
    limits: DecodeLimits,
    scanned: nat,
    input: Seq<u8>,
    cursor: nat,
    eof: bool,
) -> Step {
    let available = input.skip(cursor as int);
    match trailer_section(available, scanned, limits.max_trailer_bytes as nat) {
        Err(error) => failed(error),
        Ok(None) => if eof {
            failed(DecodeError::UnexpectedEof)
        } else {
            yields(
                DecoderState::Chunked(
                    ChunkState::Trailers {
                        scanned: at_most(available.len(), limits.max_trailer_bytes as nat) as usize,
                    },
                ),
                OutcomeView::NeedMore { consumed: cursor },
            )
        },
        Ok(Some(length)) => {
            let block = available.take(length as int);
            let crowded = trailers_crowded(block, limits.max_trailers as nat);
            match trailer_fields(block, limits.max_trailers as nat) {
                Ok((consumed, trailers)) => Step {
                    state: DecoderState::Done,
                    outcome: Ok(OutcomeView::Trailers { trailers, consumed: cursor + consumed }),
                    crowded,
                },
                Err(error) => Step {
                    state: DecoderState::Failed(error),
                    outcome: Err(error),
                    crowded,
                },
            }
        },
    }
}

/// The step at a chunk line.
pub open spec fn size_step(
    limits: DecodeLimits,
    scanned: nat,
    input: Seq<u8>,
    cursor: nat,
    eof: bool,
) -> Step {
    let available = input.skip(cursor as int);
    match chunk_line(available, scanned, limits.max_chunk_line_bytes as nat) {
        Err(error) => failed(error),
        Ok(None) => if eof {
            failed(DecodeError::UnexpectedEof)
        } else {
            yields(
                DecoderState::Chunked(ChunkState::Size { scanned: available.len() as usize }),
                OutcomeView::NeedMore { consumed: cursor },
            )
        },
        Ok(Some((size, length))) => if size == 0 {
            trailers_step(limits, 0, input, cursor + length, eof)
        } else {
            data_step(size, input, cursor + length, eof)
        },
    }
}

/// The step at the line end behind the payload of a chunk.
pub open spec fn crlf_step(limits: DecodeLimits, input: Seq<u8>, cursor: nat, eof: bool) -> Step {
    let available = input.skip(cursor as int);
    if available.len() < 2 {
        if available.len() == 1 && available[0] != CR {
            failed(DecodeError::InvalidChunkTerminator)
        } else if eof {
            failed(DecodeError::UnexpectedEof)
        } else {
            yields(
                DecoderState::Chunked(ChunkState::DataCrlf),
                OutcomeView::NeedMore { consumed: cursor },
            )
        }
    } else if available[0] != CR || available[1] != LF {
        failed(DecodeError::InvalidChunkTerminator)
    } else {
        size_step(limits, 0, input, cursor + 2, eof)
    }
}

/// The step inside a chunked body.
pub open spec fn chunk_step(
    state: ChunkState,
    limits: DecodeLimits,
    input: Seq<u8>,
    cursor: nat,
    eof: bool,
) -> Step {
    match state {
        ChunkState::Size { scanned } => size_step(limits, scanned as nat, input, cursor, eof),
        ChunkState::Data { remaining } => data_step(remaining, input, cursor, eof),
        ChunkState::DataCrlf => crlf_step(limits, input, cursor, eof),
        ChunkState::Trailers { scanned } => trailers_step(
            limits,
            scanned as nat,
            input,
            cursor,
            eof,
        ),
    }
}

/// The step of a body decoder on the bytes at hand.
pub open spec fn step(
    state: DecoderState,
    limits: DecodeLimits,
    input: Seq<u8>,
    eof: bool,
) -> Step {
    match state {
        DecoderState::Empty => yields(DecoderState::Done, OutcomeView::End { consumed: 0 }),
        DecoderState::Fixed { remaining } => if remaining == 0 {
            yields(DecoderState::Done, OutcomeView::End { consumed: 0 })
        } else if input.len() > 0 {
            let count = at_most(input.len(), remaining as nat);
            yields(
                DecoderState::Fixed { remaining: (remaining - count) as u64 },
                OutcomeView::Data { start: 0, end: count, consumed: count },
            )
        } else if eof {
            failed(DecodeError::UnexpectedEof)
        } else {
            yields(state, OutcomeView::NeedMore { consumed: 0 })
        },
        DecoderState::Chunked(state) => chunk_step(state, limits, input, 0, eof),
        DecoderState::UntilEof => if input.len() > 0 {
            yields(
                if eof {
                    DecoderState::Done
                } else {
                    state
                },
                OutcomeView::Data { start: 0, end: input.len(), consumed: input.len() },
            )
        } else if eof {
            yields(DecoderState::Done, OutcomeView::End { consumed: 0 })
        } else {
            yields(state, OutcomeView::NeedMore { consumed: 0 })
        },
        DecoderState::Done => yields(DecoderState::Done, OutcomeView::End { consumed: 0 }),
        DecoderState::Failed(error) => failed(error),
    }
}

/// Whether no trailer section ends within the first bytes of the input.
pub open spec fn no_section_end(input: Seq<u8>, scanned: nat) -> bool {
    &&& scanned <= input.len()
    &&& forall|i: int| 0 <= i < scanned ==> !ends_empty_line(input, i)
}

/// Where the trailer section starts that a look at the input comes to, if it does:
/// at once, or behind the line that ends the payload.
pub open spec fn section_start(
    state: ChunkState,
    limits: DecodeLimits,
    input: Seq<u8>,
    cursor: nat,
) -> Option<nat> {
    let available = input.skip(cursor as int);
    match state {
        ChunkState::Trailers { scanned } => if no_section_end(available, scanned as nat) {
            Some(cursor)
        } else {
            None
        },
        ChunkState::Size { scanned } => behind_last_line(
            limits,
            scanned as nat,
            input,
            cursor,
        ),
        ChunkState::DataCrlf => if available.len() >= 2 && available[0] == CR && available[1]
            == LF {
            behind_last_line(limits, 0, input, cursor + 2)
        } else {
            None
        },
        ChunkState::Data { .. } => None,
    }
}

/// The position behind the line that ends the payload, where the next line is it.
pub open spec fn behind_last_line(
    limits: DecodeLimits,
    scanned: nat,
    input: Seq<u8>,
    cursor: nat,
) -> Option<nat> {
    match chunk_line(
        input.skip(cursor as int),
        scanned,
        limits.max_chunk_line_bytes as nat,
    ) {
        Ok(Some((size, length))) => if size == 0 {
            Some(cursor + length)
        } else {
            None
        },
        _ => None,
    }
}

/// The state in which a body of a mode starts.
pub open spec fn initial(mode: BodyMode) -> DecoderState {
    match mode {
        BodyMode::Empty => DecoderState::Empty,
        BodyMode::Fixed(remaining) => DecoderState::Fixed { remaining },
        BodyMode::Chunked => DecoderState::Chunked(ChunkState::Size { scanned: 0 }),
        BodyMode::UntilEof => DecoderState::UntilEof,
    }
}

/// Whether what a look at the input reports lies within the input: payload is
/// never empty, and the end uses nothing up.
pub open spec fn in_bounds(result: Result<DecodeOutcome, DecodeError>, length: nat) -> bool {
    match result {
        Ok(DecodeOutcome::NeedMore { consumed }) => consumed <= length,
        Ok(DecodeOutcome::Data { payload, consumed }) => payload.start < payload.end <= consumed
            <= length,
        Ok(DecodeOutcome::Trailers { consumed, .. }) => consumed <= length,
        Ok(DecodeOutcome::End { consumed }) => consumed == 0,
        Err(_) => true,
    }
}

/// Whether a decoder in a state goes to the next state with this result on the
/// bytes at hand. A trailer section of plain field lines gives its fields back,
/// whether it is looked for or comes behind the line that ends the payload.
pub open spec fn decodes(
    state: DecoderState,
    limits: DecodeLimits,
    input: Seq<u8>,
    eof: bool,
    next: DecoderState,
    result: Result<DecodeOutcome, DecodeError>,
) -> bool {
    &&& step(state, limits, input, eof).allows(next, result)
    &&& in_bounds(result, input.len())
    &&& state matches DecoderState::Chunked(chunk) ==> (section_start(
        chunk,
        limits,
        input,
        0,
    ) matches Some(start) ==> gives_trailers_back(limits, input.skip(start as int), start, result))
}

/// Whether it is noted that a trailer section has been read: with its fields it has
/// been, with another outcome not, and a body may be refused for either.
pub open spec fn reading_noted(
    result: Result<DecodeOutcome, DecodeError>,
    before: bool,
    after: bool,
) -> bool {
    match result {
        Ok(DecodeOutcome::Trailers { .. }) => after,
        Ok(_) => after == before,
        Err(_) => before ==> after,
    }
}

/// Finds the payload of a received body.
#[derive(Debug)]
pub struct BodyDecoder {
    state: DecoderState,
    limits: DecodeLimits,
    trailer_workspace: Option<HeaderWorkspace>,
}

impl BodyDecoder {
    /// A chunk whose payload has all come is not waited for.
    #[verifier::type_invariant]
    spec fn reachable(self) -> bool {
        self.state != DecoderState::Chunked(ChunkState::Data { remaining: 0 })
    }

    /// Where in the body the decoder is.
    pub closed spec fn position(self) -> DecoderState {
        self.state
    }

    pub closed spec fn bounds(self) -> DecodeLimits {
        self.limits
    }

    /// Whether a trailer section has been read.
    pub closed spec fn read_trailers(self) -> bool {
        self.trailer_workspace is Some
    }

    /// A decoder with the default limits.
    pub fn new(mode: BodyMode) -> (result: Self)
        ensures
            result.position() == initial(mode),
            result.bounds().max_chunk_line_bytes == 8192,
            result.bounds().max_trailer_bytes == 16384,
            result.bounds().max_trailers == 32,
            !result.read_trailers(),
    {
        BodyDecoder::with_limits(mode, DecodeLimits::default())
    }

    /// Where in the body the decoder is.
    pub fn state(&self) -> (result: DecoderState)
        ensures
            result == self.position(),
    {
        self.state
    }

    /// Whether a trailer section has been read.
    pub fn has_read_trailers(&self) -> (result: bool)
        ensures
            result == self.read_trailers(),
    {
        self.trailer_workspace.is_some()
    }

    pub fn with_limits(mode: BodyMode, limits: DecodeLimits) -> (result: Self)
        ensures
            result.position() == initial(mode),
            result.bounds() == limits,
            !result.read_trailers(),
    {
        let state = match mode {
            BodyMode::Empty => DecoderState::Empty,
            BodyMode::Fixed(remaining) => DecoderState::Fixed { remaining },
            BodyMode::Chunked => DecoderState::Chunked(ChunkState::Size { scanned: 0 }),
            BodyMode::UntilEof => DecoderState::UntilEof,
        };
        BodyDecoder { state, limits, trailer_workspace: None }
    }

    /// Whether the body has ended without a look at further input, so that a
    /// fixed body or its trailers can be closed behind the last frame.
    pub fn is_complete(&self) -> (result: bool)
        ensures
            result == (self.position() == DecoderState::Empty || self.position()
                == DecoderState::Done || self.position() == DecoderState::Fixed { remaining: 0 }),
    {
        match self.state {
            DecoderState::Empty | DecoderState::Done => true,
            DecoderState::Fixed { remaining } => remaining == 0,
            _ => false,
        }
    }

    fn fail<T>(&mut self, error: DecodeError) -> (result: Result<T, DecodeError>)
        ensures
            final(self).state == DecoderState::Failed(error),
            final(self).limits == old(self).limits,
            final(self).trailer_workspace == old(self).trailer_workspace,
            result is Err,
            result->Err_0 == error,
    {
        self.state = DecoderState::Failed(error);
        Err(error)
    }

    /// Looks at the bytes at hand. The reported prefix is consumed before the
    /// next call, and the bytes behind it are kept in front of new ones. A
    /// payload range points into this input. `eof` says that nothing follows the
    /// input: the last payload comes first, the end or the failure with the next
    /// call.
    pub fn decode(&mut self, input: &[u8], eof: bool) -> (result: Result<
        DecodeOutcome,
        DecodeError,
    >)
        ensures
            decodes(
                old(self).position(),
                old(self).bounds(),
                input@,
                eof,
                final(self).position(),
                result,
            ),
            final(self).bounds() == old(self).bounds(),
            reading_noted(result, old(self).read_trailers(), final(self).read_trailers()),
    {
        proof {
            use_type_invariant(&*self);
        }
        match self.state {
            DecoderState::Empty => {
                self.state = DecoderState::Done;
                Ok(DecodeOutcome::End { consumed: 0 })
            },
            DecoderState::Fixed { remaining } => {
                if remaining == 0 {
                    self.state = DecoderState::Done;
                    Ok(DecodeOutcome::End { consumed: 0 })
                } else if input.len() > 0 {
                    let count: usize = if (input.len() as u64) < remaining {
                        input.len()
                    } else {
                        remaining as usize
                    };
                    self.state = DecoderState::Fixed { remaining: remaining - count as u64 };
                    Ok(DecodeOutcome::Data { payload: 0..count, consumed: count })
                } else if eof {
                    self.fail(DecodeError::UnexpectedEof)
                } else {
                    Ok(DecodeOutcome::NeedMore { consumed: 0 })
                }
            },
            DecoderState::Chunked(state) => self.decode_chunked(state, input, eof),
            DecoderState::UntilEof => {
                if input.len() > 0 {
                    if eof {
                        self.state = DecoderState::Done;
                    }
                    Ok(DecodeOutcome::Data { payload: 0..input.len(), consumed: input.len() })
                } else if eof {
                    self.state = DecoderState::Done;
                    Ok(DecodeOutcome::End { consumed: 0 })
                } else {
                    Ok(DecodeOutcome::NeedMore { consumed: 0 })
                }
            },
            DecoderState::Done => Ok(DecodeOutcome::End { consumed: 0 }),
            DecoderState::Failed(error) => Err(error),
        }
    }

    fn decode_chunked(&mut self, start: ChunkState, input: &[u8], eof: bool) -> (result: Result<
        DecodeOutcome,
        DecodeError,
    >)
        requires
            old(self).state == DecoderState::Chunked(start),
            start != (ChunkState::Data { remaining: 0 }),
        ensures
            chunk_step(start, old(self).limits, input@, 0, eof).allows(final(self).state, result),
            in_bounds(result, input@.len()),
            final(self).limits == old(self).limits,
            reading_noted(result, old(self).read_trailers(), final(self).read_trailers()),
            section_start(start, old(self).limits, input@, 0) matches Some(begin)
                ==> gives_trailers_back(
                old(self).limits,
                input@.skip(begin as int),
                begin,
                result,
            ),
    {
        let mut state = start;
        let mut cursor: usize = 0;
        loop
            invariant
                cursor <= input.len(),
                state != (ChunkState::Data { remaining: 0 }),
                self.limits == old(self).limits,
                self.trailer_workspace == old(self).trailer_workspace,
                chunk_step(start, old(self).limits, input@, 0, eof) == chunk_step(
                    state,
                    old(self).limits,
                    input@,
                    cursor as nat,
                    eof,
                ),
                section_start(start, old(self).limits, input@, 0) == section_start(
                    state,
                    old(self).limits,
                    input@,
                    cursor as nat,
                ),
            decreases input.len() - cursor,
        {
            let available = &input[cursor..input.len()];
            assert(available@ =~= input@.skip(cursor as int));
            match state {
                ChunkState::Size { scanned } => {
                    let (parsed, scanned) = match self.parse_chunk_line(available, scanned) {
                        Ok(parsed) => parsed,
                        Err(error) => return self.fail(error),
                    };
                    match parsed {
                        Some((size, consumed)) => {
                            cursor = cursor + consumed;
                            state = if size == 0 {
                                ChunkState::Trailers { scanned: 0 }
                            } else {
                                ChunkState::Data { remaining: size }
                            };
                        },
                        None => {
                            if eof {
                                return self.fail(DecodeError::UnexpectedEof);
                            }
                            self.state = DecoderState::Chunked(ChunkState::Size { scanned });
                            return Ok(DecodeOutcome::NeedMore { consumed: cursor });
                        },
                    }
                },
                ChunkState::Data { remaining } => {
                    if cursor == input.len() {
                        if eof {
                            return self.fail(DecodeError::UnexpectedEof);
                        }
                        self.state = DecoderState::Chunked(state);
                        return Ok(DecodeOutcome::NeedMore { consumed: cursor });
                    }
                    let at_hand: usize = input.len() - cursor;
                    let count: usize = if (at_hand as u64) < remaining {
                        at_hand
                    } else {
                        remaining as usize
                    };
                    let end: usize = cursor + count;
                    let remaining: u64 = remaining - count as u64;
                    self.state = DecoderState::Chunked(
                        if remaining == 0 {
                            ChunkState::DataCrlf
                        } else {
                            ChunkState::Data { remaining }
                        },
                    );
                    return Ok(DecodeOutcome::Data { payload: cursor..end, consumed: end });
                },
                ChunkState::DataCrlf => {
                    if available.len() < 2 {
                        if available.len() == 1 && available[0] != CR {
                            return self.fail(DecodeError::InvalidChunkTerminator);
                        }
                        if eof {
                            return self.fail(DecodeError::UnexpectedEof);
                        }
                        self.state = DecoderState::Chunked(state);
                        return Ok(DecodeOutcome::NeedMore { consumed: cursor });
                    }
                    if available[0] != CR || available[1] != LF {
                        return self.fail(DecodeError::InvalidChunkTerminator);
                    }
                    cursor = cursor + 2;
                    state = ChunkState::Size { scanned: 0 };
                },
                ChunkState::Trailers { scanned } => {
                    return self.decode_trailers(input, cursor, eof, scanned);
                },
            }
        }
    }

    /// The chunk line at the start of the input, or how far it has been scanned.
    fn parse_chunk_line(&self, input: &[u8], scanned: usize) -> (result: Result<
        (Option<(u64, usize)>, usize),
        DecodeError,
    >)
        ensures
            match result {
                Ok((Some((size, consumed)), _)) => chunk_line(
                    input@,
                    scanned as nat,
                    self.limits.max_chunk_line_bytes as nat,
                ) == Ok::<_, DecodeError>(Some((size, consumed as nat))) && 2 <= consumed
                    <= input.len(),
                Ok((None, scanned_now)) => chunk_line(
                    input@,
                    scanned as nat,
                    self.limits.max_chunk_line_bytes as nat,
                ) == Ok::<Option<(u64, nat)>, DecodeError>(None) && scanned_now == input.len(),
                Err(error) => chunk_line(
                    input@,
                    scanned as nat,
                    self.limits.max_chunk_line_bytes as nat,
                ) == Err::<Option<(u64, nat)>, _>(error),
            },
    {
        let from: usize = if input.len() < scanned {
            0
        } else {
            scanned
        };
        let mut index: usize = from;
        while index < input.len()
            invariant
                from <= index <= input.len(),
                from == resume(scanned as nat, input@.len()),
                line_stop(input@, from as nat) == line_stop(input@, index as nat),
            decreases input.len() - index,
        {
            let byte = input[index];
            if byte == LF {
                if index == 0 || input[index - 1] != CR {
                    return Err(DecodeError::InvalidChunkSize);
                }
                if index >= self.limits.max_chunk_line_bytes {
                    return Err(DecodeError::Limit(DecodeLimit::ChunkLineBytes));
                }
                let line = &input[0..index - 1];
                assert(line@ =~= input@.take(index - 1));
                return match parse_chunk_line(line) {
                    Ok(size) => Ok((Some((size, index + 1)), 0)),
                    Err(error) => Err(error),
                };
            }
            if index > 0 && input[index - 1] == CR {
                return Err(DecodeError::InvalidChunkSize);
            }
            index = index + 1;
        }
        if input.len() > self.limits.max_chunk_line_bytes {
            Err(DecodeError::Limit(DecodeLimit::ChunkLineBytes))
        } else {
            Ok((None, input.len()))
        }
    }

    fn decode_trailers(&mut self, input: &[u8], cursor: usize, eof: bool, scanned: usize) -> (result:
        Result<DecodeOutcome, DecodeError>)
        requires
            cursor <= input.len(),
        ensures
            trailers_step(old(self).limits, scanned as nat, input@, cursor as nat, eof).allows(
                final(self).state,
                result,
            ),
            in_bounds(result, input@.len()),
            final(self).limits == old(self).limits,
            reading_noted(result, old(self).read_trailers(), final(self).read_trailers()),
            no_section_end(input@.skip(cursor as int), scanned as nat) ==> gives_trailers_back(
                old(self).limits,
                input@.skip(cursor as int),
                cursor as nat,
                result,
            ),
    {
        proof {
            let rest = input@.skip(cursor as int);
            assert forall|lines: Seq<(Seq<u8>, Seq<u8>)>|
                #![trigger section_text(lines)]
                no_section_end(rest, scanned as nat) && plain_trailers(self.limits, lines)
                    && section_text(lines).is_prefix_of(rest) implies trailer_section(
                rest,
                scanned as nat,
                self.limits.max_trailer_bytes as nat,
            ) == Ok::<_, DecodeError>(Some(section_text(lines).len())) && rest.take(
                section_text(lines).len() as int,
            ) == section_text(lines) by {
                let length = section_text(lines).len() as int;
                assert(rest =~= section_text(lines) + rest.skip(length));
                codec_laws::section_is_found(
                    lines,
                    rest.skip(length),
                    self.limits.max_trailer_bytes as nat,
                );
                decode_laws::scanned_section(
                    scanned as nat,
                    rest,
                    self.limits.max_trailer_bytes as nat,
                );
                assert(rest.take(length) =~= section_text(lines));
            }
        }
        let available = &input[cursor..input.len()];
        assert(available@ =~= input@.skip(cursor as int));
        let (length, scanned) = match self.trailer_end(available, scanned) {
            Ok(found) => found,
            Err(error) => return self.fail(error),
        };
        let length = match length {
            Some(length) => length,
            None => {
                if eof {
                    return self.fail(DecodeError::UnexpectedEof);
                }
                self.state = DecoderState::Chunked(ChunkState::Trailers { scanned });
                return Ok(DecodeOutcome::NeedMore { consumed: cursor });
            },
        };
        let block = &available[0..length];
        assert(block@ =~= available@.take(length as int));
        let workspace = HeaderWorkspace::new(self.limits.max_trailers);
        proof {
            use_type_invariant(&*self);
        }
        self.trailer_workspace = Some(workspace);
        match parse_trailers(block, workspace) {
            Ok((consumed, trailers)) => {
                self.state = DecoderState::Done;
                Ok(DecodeOutcome::Trailers { trailers, consumed: cursor + consumed })
            },
            Err(error) => self.fail(error),
        }
    }

    /// The length of the trailer section at the start of the input, or how far
    /// it has been scanned.
    fn trailer_end(&self, input: &[u8], scanned: usize) -> (result: Result<
        (Option<usize>, usize),
        DecodeError,
    >)
        ensures
            match result {
                Ok((Some(length), _)) => trailer_section(
                    input@,
                    scanned as nat,
                    self.limits.max_trailer_bytes as nat,
                ) == Ok::<_, DecodeError>(Some(length as nat)) && length <= input.len(),
                Ok((None, scanned_now)) => trailer_section(
                    input@,
                    scanned as nat,
                    self.limits.max_trailer_bytes as nat,
                ) == Ok::<Option<nat>, DecodeError>(None) && scanned_now == at_most(
                    input@.len(),
                    self.limits.max_trailer_bytes as nat,
                ),
                Err(error) => trailer_section(
                    input@,
                    scanned as nat,
                    self.limits.max_trailer_bytes as nat,
                ) == Err::<Option<nat>, _>(error),
            },
    {
        let from: usize = if input.len() < scanned {
            0
        } else {
            scanned
        };
        let bounded: usize = if input.len() < self.limits.max_trailer_bytes {
            input.len()
        } else {
            self.limits.max_trailer_bytes
        };
        let start: usize = if from < bounded {
            from
        } else {
            bounded
        };
        let mut index: usize = start;
        while index < bounded
            invariant
                start <= index <= bounded <= input.len(),
                bounded == at_most(input@.len(), self.limits.max_trailer_bytes as nat),
                start == at_most(resume(scanned as nat, input@.len()), bounded as nat),
                empty_line(input@, start as nat, bounded as nat) == empty_line(
                    input@,
                    index as nat,
                    bounded as nat,
                ),
            decreases bounded - index,
        {
            if input[index] == LF {
                let ends = index == 0 || (index == 1 && input[0] == CR) || input[index - 1] == LF
                    || (index >= 2 && input[index - 2] == LF && input[index - 1] == CR);
                if ends {
                    return Ok((Some(index + 1), 0));
                }
            }
            index = index + 1;
        }
        if input.len() > self.limits.max_trailer_bytes {
            Err(DecodeError::Limit(DecodeLimit::TrailerBytes))
        } else {
            Ok((None, bounded))
        }
    }
}

/// Reads a whole trailer section.
fn parse_trailers(block: &[u8], workspace: HeaderWorkspace) -> (result: Result<
    (usize, HeaderMap),
    DecodeError,
>)
    ensures
        match result {
            Ok((consumed, trailers)) => trailer_fields(block@, workspace.slots as nat) == Ok::<
                _,
                DecodeError,
            >((consumed as nat, fields::entries(trailers))) && consumed <= block.len(),
            Err(error) => trailer_fields(block@, workspace.slots as nat) == Err::<
                (nat, Seq<(Seq<u8>, Seq<Seq<u8>>)>),
                _,
            >(error) || (trailers_crowded(block@, workspace.slots as nat) && error
                == DecodeError::Limit(DecodeLimit::TrailerMap)),
        },
        forall|lines: Seq<(Seq<u8>, Seq<u8>)>|
            #![trigger section_text(lines)]
            wire::plain_fields(lines) && lines.len() <= workspace.slots && block@ == section_text(
                lines,
            ) && head::owned_fields(lines) is Ok && !head::crowded(lines) && trailers_allowed(
                head::gathered(lines),
            ) ==> (result matches Ok((consumed, trailers)) && consumed == block.len()
                && fields::entries(trailers) == head::gathered(lines)),
{
    proof {
        assert forall|lines: Seq<(Seq<u8>, Seq<u8>)>|
            #![trigger section_text(lines)]
            block@ == section_text(lines) implies lines.len() <= block@.len() by {
            codec_laws::block_is_longer_than_lines(lines);
        }
    }
    match wire::parse_fields(block, workspace.slots_for(block)) {
        Ok(Some(parsed)) => {
            let consumed = parsed.consumed;
            match own_headers(parsed.fields) {
                Ok(trailers) => match validate_trailers(&trailers) {
                    Ok(()) => Ok((consumed, trailers)),
                    Err(error) => Err(error),
                },
                Err(HeadError::Limit(_)) => Err(DecodeError::Limit(DecodeLimit::TrailerMap)),
                Err(_) => Err(DecodeError::InvalidTrailer),
            }
        },
        Ok(None) => Err(DecodeError::InvalidTrailer),
        Err(error) => match wire::syntax_error(error) {
            SyntaxError::TooManyHeaders => Err(DecodeError::Limit(DecodeLimit::Trailers)),
            _ => Err(DecodeError::InvalidTrailer),
        },
    }
}

/// The size that a chunk line announces, its line end taken off.
pub fn parse_chunk_line(line: &[u8]) -> (result: Result<u64, DecodeError>)
    ensures
        result == chunk_size(line@),
{
    let split = ascii::find(line, SEMICOLON);
    let digits = trim_end(&line[0..split]);
    assert(line@.subrange(0, split as int) =~= line@.take(split as int));
    if digits.len() == 0 {
        return Err(DecodeError::InvalidChunkSize);
    }
    let size = match parse_hex(digits) {
        Some(size) => size,
        None => return Err(DecodeError::InvalidChunkSize),
    };
    let extensions = &line[split..line.len()];
    assert(extensions@ =~= line@.skip(split as int));
    match validate_extensions(extensions) {
        Ok(()) => Ok(size),
        Err(error) => Err(error),
    }
}

proof fn hex_value_grows(digits: Seq<u8>, length: int)
    requires
        0 <= length <= digits.len(),
    ensures
        hex_value(digits.take(length)) <= hex_value(digits),
    decreases digits.len(),
{
    if length == digits.len() {
        assert(digits.take(length) =~= digits);
    } else {
        hex_value_grows(digits.drop_last(), length);
        assert(digits.drop_last().take(length) =~= digits.take(length));
    }
}

/// The number that the digits stand for, `None` where one is no digit or the
/// number does not fit.
fn parse_hex(digits: &[u8]) -> (result: Option<u64>)
    ensures
        result == (if all_hex(digits@) && hex_value(digits@) <= u64::MAX {
            Some(hex_value(digits@) as u64)
        } else {
            None::<u64>
        }),
{
    for index in 0..digits.len()
        invariant
            forall|i: int| 0 <= i < index ==> ascii::is_hex(#[trigger] digits@[i]),
    {
        if !matches!(digits[index], 0x30..=0x39 | 0x41..=0x46 | 0x61..=0x66) {
            assert(!ascii::is_hex(digits@[index as int]));
            return None;
        }
    }
    let mut size: u64 = 0;
    assert(digits@.take(0) =~= Seq::empty());
    for index in 0..digits.len()
        invariant
            all_hex(digits@),
            size == hex_value(digits@.take(index as int)),
    {
        let byte = digits[index];
        assert(ascii::is_hex(digits@[index as int]));
        let digit: u64 = if byte <= 0x39 {
            (byte - 0x30) as u64
        } else if byte <= 0x46 {
            (byte - 0x41) as u64 + 10
        } else {
            (byte - 0x61) as u64 + 10
        };
        proof {
            let prefix = digits@.take(index + 1);
            assert(prefix.drop_last() =~= digits@.take(index as int));
            assert(prefix.last() == byte);
            assert(hex_value(prefix) == 16 * size + digit);
            hex_value_grows(digits@, index + 1);
        }
        size = match size.checked_mul(16) {
            Some(size) => match size.checked_add(digit) {
                Some(size) => size,
                None => return None,
            },
            None => return None,
        };
    }
    assert(digits@.take(digits.len() as int) =~= digits@);
    Some(size)
}

/// Accepts a sequence of well-formed chunk extensions.
pub fn validate_extensions(extensions: &[u8]) -> (result: Result<(), DecodeError>)
    ensures
        result == (if extensions_valid(extensions@) {
            Ok(())
        } else {
            Err(DecodeError::InvalidChunkExtension)
        }),
{
    let mut input = extensions;
    while input.len() > 0
        invariant
            extensions_valid(extensions@) == extensions_valid(input@),
        decreases input.len(),
    {
        proof {
            extension_rest_shrinks(input@);
        }
        let start = trim_ows(input);
        if start.len() == 0 || start[0] != SEMICOLON {
            return Err(DecodeError::InvalidChunkExtension);
        }
        let name = trim_ows(&start[1..start.len()]);
        assert(start@.subrange(1, start.len() as int) =~= start@.skip(1));
        let length = token_len(name);
        if length == 0 {
            return Err(DecodeError::InvalidChunkExtension);
        }
        let mut rest = trim_ows(&name[length..name.len()]);
        assert(name@.subrange(length as int, name.len() as int) =~= name@.skip(length as int));
        if rest.len() > 0 && rest[0] == EQUALS {
            let value = trim_ows(&rest[1..rest.len()]);
            assert(rest@.subrange(1, rest.len() as int) =~= rest@.skip(1));
            let length = match value_len(value) {
                Some(length) => length,
                None => return Err(DecodeError::InvalidChunkExtension),
            };
            rest = trim_ows(&value[length..value.len()]);
            assert(value@.subrange(length as int, value.len() as int) =~= value@.skip(
                length as int,
            ));
        }
        if rest.len() > 0 && rest[0] != SEMICOLON {
            return Err(DecodeError::InvalidChunkExtension);
        }
        input = rest;
    }
    Ok(())
}

fn names(name: &[u8], text: &'static str) -> (result: bool)
    ensures
        result == (ascii::lowered(name@) == fields::named(text)),
{
    same_ignoring_case(name, text.as_bytes())
}

fn is_forbidden(name: &[u8]) -> (result: bool)
    ensures
        result == forbidden_name(name@),
{
    names(name, "transfer-encoding") || names(name, "content-length") || names(name, "host")
        || names(name, "connection") || names(name, "trailer") || names(name, "te") || names(
        name,
        "upgrade",
    ) || names(name, "expect") || names(name, "authorization") || names(
        name,
        "proxy-authorization",
    ) || names(name, "proxy-authenticate") || names(name, "www-authenticate") || names(
        name,
        "content-encoding",
    ) || names(name, "content-type") || names(name, "content-range")
}

/// Refuses trailers that hold a field which may not come behind a body.
pub fn validate_trailers(trailers: &HeaderMap) -> (result: Result<(), DecodeError>)
    ensures
        result == (if trailers_allowed(fields::entries(*trailers)) {
            Ok(())
        } else {
            Err(DecodeError::ForbiddenTrailer)
        }),
{
    let names = fields::names(trailers);
    for index in 0..names.len()
        invariant
            fields::views(names@) == Seq::new(
                fields::entries(*trailers).len(),
                |i: int| fields::entries(*trailers)[i].0,
            ),
            forall|i: int|
                0 <= i < index ==> !forbidden_name((#[trigger] fields::entries(*trailers)[i]).0),
    {
        assert(fields::views(names@)[index as int] == names@[index as int]@);
        assert(names@.len() == fields::views(names@).len());
        if is_forbidden(names[index]) {
            return Err(DecodeError::ForbiddenTrailer);
        }
    }
    assert(names@.len() == fields::views(names@).len());
    Ok(())
}

} // verus!
