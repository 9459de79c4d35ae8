//! Outgoing messages: how they are framed and which ones are refused.

use crate::ascii::{self, CR, LF, ZERO};
use crate::body::size_hint::SizeHint;
use crate::body::{Buffer, TrailerHint};
use crate::outside::fields;
use crate::outside::octets;
use crate::outside::start_line;
use crate::outside::wire;
use crate::proto::h1::decode::{self, validate_trailers};
use crate::message::{self, Method, StatusCode, Target, Version};
use crate::proto::h1::head::{
    self, HeadError, RequestHead, RequestView, ResponseHead, ResponseView,
};
use crate::proto::h1::inline::InlineBuf;
use crate::proto::h1::validate::{
    self, parse_content_length, parse_transfer_encoding, RequestMeaning, ResponseMeaning,
    ValidatedRequestHead, ValidatedResponseHead,
};
use crate::proto::h1::values;
use crate::proto::h1::{BodyMode, Persistence, UpgradeKind};
use bytes::Bytes;
use http::HeaderMap;
use vstd::prelude::*;

verus! {

/// What a producer promises before it is asked for a frame. Payload bounds and
/// trailer capability are independent of the selected wire framing.
#[derive(Clone, Copy, Debug)]
pub struct BodyMetadata {
    pub size: SizeHint,
    pub trailers: TrailerHint,
}

impl BodyMetadata {
    /// A payload of exactly this length without trailers.
    pub fn exact(length: u64) -> (result: Self)
        ensures
            result.size.low() == length,
            result.size.high() == Some(length),
            result.trailers == TrailerHint::Absent,
    {
        BodyMetadata { size: SizeHint::with_exact(length), trailers: TrailerHint::Absent }
    }

    /// Nothing is known.
    pub fn unknown() -> (result: Self)
        ensures
            result.size.low() == 0,
            result.size.high() is None,
            result.trailers == TrailerHint::MayHave,
    {
        BodyMetadata { size: SizeHint::new(), trailers: TrailerHint::MayHave }
    }
}

/// Bounds on the text that surrounds a payload.
#[derive(Clone, Copy, Debug, PartialEq, Eq, Structural)]
pub struct EncodeLimits {
    pub max_head_bytes: usize,
    pub max_trailer_bytes: usize,
}

impl EncodeLimits {
    /// Limits of zero would refuse every message.
    pub fn new(max_head_bytes: usize, max_trailer_bytes: usize) -> (result: Self)
        requires
            max_head_bytes > 0,
            max_trailer_bytes > 0,
        ensures
            result == (EncodeLimits { max_head_bytes, max_trailer_bytes }),
    {
        EncodeLimits { max_head_bytes, max_trailer_bytes }
    }
}

/// How messages are written.
#[derive(Clone, Copy, Debug, PartialEq, Eq, Structural)]
pub struct EncodeConfig {
    pub max_head_bytes: usize,
    pub max_trailer_bytes: usize,
    pub title_case_headers: bool,
}

impl EncodeConfig {
    /// Messages with field names in small letters, within limits.
    pub fn new(max_head_bytes: usize, max_trailer_bytes: usize) -> (result: Self)
        requires
            max_head_bytes > 0,
            max_trailer_bytes > 0,
        ensures
            result == (EncodeConfig {
                max_head_bytes,
                max_trailer_bytes,
                title_case_headers: false,
            }),
    {
        EncodeConfig { max_head_bytes, max_trailer_bytes, title_case_headers: false }
    }

    pub open spec fn bounds(self) -> EncodeLimits {
        EncodeLimits {
            max_head_bytes: self.max_head_bytes,
            max_trailer_bytes: self.max_trailer_bytes,
        }
    }

    /// The limits alone.
    pub fn limits(&self) -> (result: EncodeLimits)
        ensures
            result == self.bounds(),
    {
        EncodeLimits {
            max_head_bytes: self.max_head_bytes,
            max_trailer_bytes: self.max_trailer_bytes,
        }
    }
}

/// Why a message cannot be sent.
#[derive(Clone, Copy, Debug, PartialEq, Eq, Structural)]
pub enum EncodeError {
    InvalidHead,
    InvalidFraming,
    LengthMismatch,
    BodyForbidden,
    TrailersForbidden,
    FrameAfterEnd,
    Unsupported,
    Limit,
}

/// What is known of the answer that the machine gives to a request for memory.
#[derive(Clone, Copy, Debug, PartialEq, Eq, Structural)]
pub enum Memory {
    /// Nothing: the machine is asked when the memory is needed.
    Asked,
    /// There is enough of it.
    Granted,
    /// There is none.
    Refused,
}

impl Memory {
    /// Whether this may be the answer.
    pub open spec fn may_answer(self, granted: bool) -> bool {
        match self {
            Memory::Asked => true,
            Memory::Granted => granted,
            Memory::Refused => !granted,
        }
    }
}

/// Text of bounded length.
#[derive(Debug)]
pub struct BoundedWriter {
    bytes: Vec<u8>,
    limit: usize,
    memory: Memory,
}

impl BoundedWriter {
    pub closed spec fn written(self) -> Seq<u8> {
        self.bytes@
    }

    pub closed spec fn bound(self) -> nat {
        self.limit as nat
    }

    pub closed spec fn source(self) -> Memory {
        self.memory
    }

    /// Whether this is the writer before with the same bound and memory.
    pub open spec fn continues(self, before: BoundedWriter) -> bool {
        &&& self.bound() == before.bound()
        &&& self.source() == before.source()
    }

    /// Text that is held in memory the machine is asked for.
    pub fn new(limit: usize) -> (result: Self)
        ensures
            result.written() == Seq::<u8>::empty(),
            result.bound() == limit,
            result.source() == Memory::Asked,
    {
        BoundedWriter::with_memory(limit, Memory::Asked)
    }

    /// Text that is held in this memory.
    pub fn with_memory(limit: usize, memory: Memory) -> (result: Self)
        ensures
            result.written() == Seq::<u8>::empty(),
            result.bound() == limit,
            result.source() == memory,
    {
        BoundedWriter { bytes: Vec::new(), limit, memory }
    }

    /// Adds bytes for which `reserved` says whether there is room in memory.
    /// Nothing is written where they are refused.
    pub fn push_reserved(&mut self, value: &[u8], reserved: bool) -> (result: Result<
        (),
        EncodeError,
    >)
        ensures
            final(self).continues(*old(self)),
            result == (if reserved && old(self).written().len() + value@.len()
                <= old(self).bound() {
                Ok(())
            } else {
                Err(EncodeError::Limit)
            }),
            final(self).written() == (if result is Ok {
                old(self).written() + value@
            } else {
                old(self).written()
            }),
    {
        if !reserved || self.bytes.len() > self.limit || value.len() > self.limit
            - self.bytes.len() {
            return Err(EncodeError::Limit);
        }
        self.bytes.extend_from_slice(value);
        assert(self.bytes@ =~= old(self).bytes@ + value@);
        Ok(())
    }

    /// Adds bytes. What exceeds the limit is refused, and so is what the machine
    /// has no memory for; nothing is written then. No bytes need no memory.
    pub fn push(&mut self, value: &[u8]) -> (result: Result<(), EncodeError>)
        ensures
            final(self).continues(*old(self)),
            match result {
                Ok(()) => {
                    &&& final(self).written() == old(self).written() + value@
                    &&& final(self).written().len() <= final(self).bound()
                    &&& value@.len() == 0 || old(self).source().may_answer(true)
                },
                Err(error) => {
                    &&& error == EncodeError::Limit
                    &&& final(self).written() == old(self).written()
                    &&& old(self).written().len() + value@.len() > old(self).bound() || (
                    value@.len() > 0 && old(self).source().may_answer(false))
                },
            },
    {
        if self.bytes.len() > self.limit || value.len() > self.limit - self.bytes.len() {
            return Err(EncodeError::Limit);
        }
        let reserved = value.len() == 0 || match self.memory {
            Memory::Asked => self.bytes.try_reserve(value.len()).is_ok(),
            Memory::Granted => true,
            Memory::Refused => false,
        };
        self.push_reserved(value, reserved)
    }

    pub fn finish(self) -> (result: Bytes)
        ensures
            octets::octets(result) == self.written(),
    {
        octets::from_vec(self.bytes)
    }
}

/// Adds one field line for each value. No fields need no memory; otherwise all the
/// lines are written where they fit and the machine has memory for them.
pub fn write_headers(writer: &mut BoundedWriter, headers: &HeaderMap) -> (result: Result<
    (),
    EncodeError,
>)
    ensures
        final(writer).continues(*old(writer)),
        ({
            let lines = fields::lines(fields::entries(*headers));
            let wanted = old(writer).written() + wire::field_block(lines);
            match result {
                Ok(()) => {
                    &&& final(writer).written() == wanted
                    &&& lines.len() == 0 || (wanted.len() <= old(writer).bound() && old(
                        writer,
                    ).source().may_answer(true))
                },
                Err(error) => {
                    &&& error == EncodeError::Limit
                    &&& lines.len() > 0
                    &&& wanted.len() > old(writer).bound() || old(writer).source().may_answer(false)
                },
            }
        }),
        fields::entries(*headers).len() == 0 ==> result is Ok,
{
    let lines = fields::field_lines(headers);
    let ghost pairs = fields::lines(fields::entries(*headers));
    let ghost start = writer.written();
    let ghost wanted = start + wire::field_block(pairs);
    assert(pairs.len() == lines@.len());
    let mut index: usize = 0;
    assert(pairs.take(0) =~= Seq::empty());
    assert(start + wire::field_block(pairs.take(0)) =~= start);
    while index < lines.len()
        invariant
            index <= lines.len(),
            pairs == Seq::new(lines@.len(), |i: int| (lines@[i].0@, lines@[i].1@)),
            pairs == fields::lines(fields::entries(*headers)),
            writer.continues(*old(writer)),
            start == old(writer).written(),
            wanted == start + wire::field_block(pairs),
            writer.written() == start + wire::field_block(pairs.take(index as int)),
            index > 0 ==> writer.written().len() <= writer.bound() && writer.source().may_answer(
                true,
            ),
        decreases lines.len() - index,
    {
        let (name, value) = lines[index];
        let ghost before = writer.written();
        proof {
            assert(pairs[index as int] == (name@, value@));
            field_block_grows(pairs, index as int);
            field_block_splits(pairs, index + 1);
            assert(before.len() + wire::field_line(name@, value@).len() <= wanted.len());
        }
        writer.push(name)?;
        writer.push(&[ascii::COLON, ascii::SP])?;
        writer.push(value)?;
        writer.push(&[CR, LF])?;
        proof {
            assert(writer.written() =~= before + wire::field_line(name@, value@));
            assert(writer.written() =~= start + wire::field_block(pairs.take(index + 1)));
        }
        index = index + 1;
    }
    assert(pairs.take(index as int) =~= pairs);
    Ok(())
}

proof fn field_block_splits(lines: Seq<(Seq<u8>, Seq<u8>)>, index: int)
    requires
        0 <= index <= lines.len(),
    ensures
        wire::field_block(lines).len() == wire::field_block(lines.take(index)).len()
            + wire::field_block(lines.skip(index)).len(),
    decreases index,
{
    if index == 0 {
        assert(lines.take(0) =~= Seq::empty());
        assert(lines.skip(0) =~= lines);
    } else {
        field_block_splits(lines, index - 1);
        field_block_grows(lines, index - 1);
        assert(lines.skip(index - 1).skip(1) =~= lines.skip(index));
    }
}

proof fn field_block_grows(lines: Seq<(Seq<u8>, Seq<u8>)>, index: int)
    requires
        0 <= index < lines.len(),
    ensures
        wire::field_block(lines.take(index + 1)) == wire::field_block(lines.take(index))
            + wire::field_line(lines[index].0, lines[index].1),
    decreases index,
{
    if index == 0 {
        assert(lines.take(1).skip(1) =~= Seq::empty());
        assert(lines.take(0) =~= Seq::empty());
        assert(wire::field_block(lines.take(1).skip(1)) =~= Seq::<u8>::empty());
        assert(wire::field_block(lines.take(1)) =~= wire::field_line(lines[0].0, lines[0].1));
        assert(wire::field_block(lines.take(1)) =~= Seq::<u8>::empty() + wire::field_line(
            lines[0].0,
            lines[0].1,
        ));
    } else {
        let rest = lines.skip(1);
        field_block_grows(rest, index - 1);
        assert(lines.take(index + 1).skip(1) =~= rest.take(index));
        assert(lines.take(index).skip(1) =~= rest.take(index - 1));
        let first = wire::field_line(lines[0].0, lines[0].1);
        let last = wire::field_line(lines[index].0, lines[index].1);
        assert(first + (wire::field_block(rest.take(index - 1)) + last) =~= (first
            + wire::field_block(rest.take(index - 1))) + last);
    }
}

/// The longest chunk line that announces a payload.
pub const CHUNK_PREFIX_CAPACITY: usize = 18;

/// The digit of a number below sixteen.
pub open spec fn hex_byte(value: nat) -> u8 {
    if value < 10 {
        (0x30 + value) as u8
    } else {
        (0x61 + value - 10) as u8
    }
}

/// The hexadecimal digits of a number, none for zero.
pub open spec fn hex_digits(value: nat) -> Seq<u8>
    decreases value,
{
    if value == 0 {
        Seq::empty()
    } else {
        hex_digits(value / 16).push(hex_byte(value % 16))
    }
}

pub open spec fn power_of_sixteen(exponent: nat) -> nat
    decreases exponent,
{
    if exponent == 0 {
        1
    } else {
        16 * power_of_sixteen((exponent - 1) as nat)
    }
}

proof fn hex_digits_bounded(value: nat, count: nat)
    requires
        value < power_of_sixteen(count),
    ensures
        hex_digits(value).len() <= count,
    decreases count,
{
    if value > 0 {
        assert(count > 0);
        hex_digits_bounded(value / 16, (count - 1) as nat);
    }
}

pub proof fn hex_digits_fit(value: nat)
    requires
        value <= u64::MAX,
    ensures
        hex_digits(value).len() <= 16,
{
    reveal_with_fuel(power_of_sixteen, 17);
    hex_digits_bounded(value, 16);
}

/// The text in front of the payload of a chunk.
pub open spec fn chunk_line_text(length: nat) -> Seq<u8> {
    hex_digits(length) + seq![CR, LF]
}

/// The line that announces a payload. Without a payload it has no digits.
pub fn chunk_prefix(length: usize) -> (result: InlineBuf<CHUNK_PREFIX_CAPACITY>)
    ensures
        result.contents() == chunk_line_text(length as nat),
{
    let ghost wanted = hex_digits(length as nat);
    proof {
        hex_digits_fit(length as nat);
    }
    let mut digits: usize = 0;
    let mut rest: usize = length;
    while rest > 0
        invariant
            digits + hex_digits(rest as nat).len() == wanted.len(),
            wanted.len() <= 16,
        decreases rest,
    {
        digits = digits + 1;
        rest = rest / 16;
    }
    let mut bytes = [0u8; CHUNK_PREFIX_CAPACITY];
    let mut cursor: usize = digits;
    rest = length;
    assert(wanted =~= hex_digits(length as nat) + wanted.skip(digits as int));
    while cursor > 0
        invariant
            digits == wanted.len(),
            digits <= 16,
            cursor <= digits,
            hex_digits(rest as nat).len() == cursor,
            wanted == hex_digits(rest as nat) + wanted.skip(cursor as int),
            forall|i: int| cursor <= i < digits ==> bytes@[i] == wanted[i],
        decreases cursor,
    {
        cursor = cursor - 1;
        let digit: u8 = (rest % 16) as u8;
        let byte: u8 = if digit < 10 {
            0x30 + digit
        } else {
            0x61 + (digit - 10)
        };
        proof {
            let shorter = hex_digits((rest / 16) as nat);
            assert(hex_digits(rest as nat) == shorter.push(byte));
            assert(wanted[cursor as int] == byte);
            assert(wanted =~= shorter + wanted.skip(cursor as int));
        }
        bytes[cursor] = byte;
        rest = rest / 16;
    }
    bytes[digits] = CR;
    bytes[digits + 1] = LF;
    assert(bytes@.take(digits + 2) =~= chunk_line_text(length as nat));
    InlineBuf::from_parts(bytes, digits + 2)
}

/// What goes around the payload of a frame.
#[derive(Debug, PartialEq, Eq)]
pub struct DataFraming {
    pub prefix: InlineBuf<CHUNK_PREFIX_CAPACITY>,
    pub suffix: Bytes,
}

/// What an encoder may still be asked for.
#[derive(Clone, Copy, Debug, PartialEq, Eq, Structural)]
pub enum BodyState {
    NoBody,
    Fixed,
    Chunked,
    CloseDelimited,
    Done,
    Failed(EncodeError),
}

/// Frames the payload of an outgoing body and holds its producer to what it
/// promised.
#[derive(Debug)]
pub struct BodyEncoder {
    pub state: BodyState,
    pub max_trailer_bytes: usize,
    pub remaining_lower: u64,
    pub remaining_upper: Option<u64>,
    pub trailers: TrailerHint,
}

/// The encoder after a refusal, which is final.
pub open spec fn refused(encoder: BodyEncoder, error: EncodeError) -> BodyEncoder {
    BodyEncoder { state: BodyState::Failed(error), ..encoder }
}

/// Whether a body mode can carry what the producer promises.
pub open spec fn mode_conflict(mode: BodyMode, metadata: BodyMetadata) -> Option<EncodeError> {
    match mode {
        BodyMode::Fixed(length) => if metadata.size.agreed() != Some(length) || metadata.trailers
            != TrailerHint::Absent {
            Some(EncodeError::InvalidFraming)
        } else {
            None
        },
        BodyMode::UntilEof => if metadata.trailers != TrailerHint::Absent {
            Some(EncodeError::TrailersForbidden)
        } else {
            None
        },
        _ => None,
    }
}

pub open spec fn encoder_state(mode: BodyMode) -> BodyState {
    match mode {
        BodyMode::Empty => BodyState::NoBody,
        BodyMode::Fixed(_) => BodyState::Fixed,
        BodyMode::Chunked => BodyState::Chunked,
        BodyMode::UntilEof => BodyState::CloseDelimited,
    }
}

/// Why a payload of this length may not be sent now.
pub open spec fn data_conflict(encoder: BodyEncoder, length: nat) -> Option<EncodeError> {
    match encoder.state {
        BodyState::Failed(error) => Some(error),
        BodyState::Done => Some(EncodeError::FrameAfterEnd),
        BodyState::NoBody => Some(EncodeError::BodyForbidden),
        _ => match encoder.remaining_upper {
            Some(upper) => if length > upper {
                Some(EncodeError::LengthMismatch)
            } else {
                None
            },
            None => None,
        },
    }
}

/// The encoder after a payload of this length.
pub open spec fn after_data(encoder: BodyEncoder, length: nat) -> BodyEncoder {
    BodyEncoder {
        remaining_lower: if encoder.remaining_lower < length {
            0
        } else {
            (encoder.remaining_lower - length) as u64
        },
        remaining_upper: match encoder.remaining_upper {
            Some(upper) => Some((upper - length) as u64),
            None => None,
        },
        ..encoder
    }
}

/// Why trailers may not be sent now, whatever their length.
pub open spec fn trailers_conflict(
    encoder: BodyEncoder,
    trailers: Seq<(Seq<u8>, Seq<Seq<u8>>)>,
) -> Option<EncodeError> {
    match encoder.state {
        BodyState::Failed(error) => Some(error),
        BodyState::Done => Some(EncodeError::FrameAfterEnd),
        BodyState::Chunked => if encoder.remaining_lower != 0 {
            Some(EncodeError::LengthMismatch)
        } else if encoder.trailers == TrailerHint::Absent || !decode::trailers_allowed(trailers) {
            Some(EncodeError::TrailersForbidden)
        } else if trailer_text(trailers).len() > encoder.max_trailer_bytes {
            Some(EncodeError::Limit)
        } else {
            None
        },
        _ => Some(EncodeError::TrailersForbidden),
    }
}

/// The last chunk with its trailer section.
pub open spec fn trailer_text(trailers: Seq<(Seq<u8>, Seq<Seq<u8>>)>) -> Seq<u8> {
    seq![ZERO, CR, LF] + wire::field_block(fields::lines(trailers)) + seq![CR, LF]
}

/// The bytes of a result.
pub open spec fn bytes_view(result: Result<Bytes, EncodeError>) -> Result<Seq<u8>, EncodeError> {
    match result {
        Ok(bytes) => Ok(octets::octets(bytes)),
        Err(error) => Err(error),
    }
}

/// A text within its limit, for which there is memory.
pub open spec fn bounded(text: Seq<u8>, limit: nat, granted: bool) -> Result<
    Seq<u8>,
    EncodeError,
> {
    if granted && text.len() <= limit {
        Ok(text)
    } else {
        Err(EncodeError::Limit)
    }
}

/// Whether a result and an encoder are what trailers lead to, where `granted` says
/// whether there is memory for their text.
pub open spec fn trailers_ended(
    encoder: BodyEncoder,
    trailers: Seq<(Seq<u8>, Seq<Seq<u8>>)>,
    result: Result<Bytes, EncodeError>,
    after: BodyEncoder,
    granted: bool,
) -> bool {
    let expected = match trailers_conflict(encoder, trailers) {
        Some(error) => Err(error),
        None => bounded(trailer_text(trailers), encoder.max_trailer_bytes as nat, granted),
    };
    &&& bytes_view(result) == expected
    &&& after == (match expected {
        Ok(_) => BodyEncoder { state: BodyState::Done, ..encoder },
        Err(error) => refused(encoder, error),
    })
}

/// Why the body may not end now.
pub open spec fn end_conflict(encoder: BodyEncoder) -> Option<EncodeError> {
    match encoder.state {
        BodyState::Failed(error) => Some(error),
        BodyState::Done => Some(EncodeError::FrameAfterEnd),
        BodyState::NoBody => None,
        _ => if encoder.remaining_lower != 0 {
            Some(EncodeError::LengthMismatch)
        } else {
            None
        },
    }
}

/// The text that ends a body without trailers.
pub open spec fn end_text(state: BodyState) -> Seq<u8> {
    if state == BodyState::Chunked {
        seq![ZERO, CR, LF, CR, LF]
    } else {
        Seq::empty()
    }
}

impl BodyEncoder {
    pub fn new(mode: BodyMode, metadata: BodyMetadata, limits: EncodeLimits) -> (result: Result<
        Self,
        EncodeError,
    >)
        ensures
            match result {
                Ok(encoder) => mode_conflict(mode, metadata) is None && encoder == (BodyEncoder {
                    state: encoder_state(mode),
                    max_trailer_bytes: limits.max_trailer_bytes,
                    remaining_lower: metadata.size.low(),
                    remaining_upper: metadata.size.high(),
                    trailers: metadata.trailers,
                }),
                Err(error) => mode_conflict(mode, metadata) == Some(error),
            },
    {
        let state = match mode {
            BodyMode::Empty => BodyState::NoBody,
            BodyMode::Fixed(length) => {
                match metadata.size.exact() {
                    Some(exact) if exact == length && metadata.trailers == TrailerHint::Absent => {},
                    _ => return Err(EncodeError::InvalidFraming),
                }
                BodyState::Fixed
            },
            BodyMode::Chunked => BodyState::Chunked,
            BodyMode::UntilEof => {
                if metadata.trailers != TrailerHint::Absent {
                    return Err(EncodeError::TrailersForbidden);
                }
                BodyState::CloseDelimited
            },
        };
        Ok(
            BodyEncoder {
                state,
                max_trailer_bytes: limits.max_trailer_bytes,
                remaining_lower: metadata.size.lower(),
                remaining_upper: metadata.size.upper(),
                trailers: metadata.trailers,
            },
        )
    }

    fn fail<T>(&mut self, error: EncodeError) -> (result: Result<T, EncodeError>)
        ensures
            *final(self) == refused(*old(self), error),
            result is Err,
            result->Err_0 == error,
    {
        self.state = BodyState::Failed(error);
        Err(error)
    }

    /// What goes around a payload of this length. A payload outside the promised
    /// bounds, or one that may not come now, is refused before anything of it can
    /// be sent, and every later call is refused with the same error.
    pub fn data(&mut self, length: usize) -> (result: Result<DataFraming, EncodeError>)
        ensures
            match result {
                Ok(framing) => {
                    &&& data_conflict(*old(self), length as nat) is None
                    &&& *final(self) == after_data(*old(self), length as nat)
                    &&& framing.prefix.contents() == (if old(self).state == BodyState::Chunked
                        && length > 0 {
                        chunk_line_text(length as nat)
                    } else {
                        Seq::empty()
                    })
                    &&& octets::octets(framing.suffix) == (if old(self).state == BodyState::Chunked
                        && length > 0 {
                        seq![CR, LF]
                    } else {
                        Seq::empty()
                    })
                },
                Err(error) => data_conflict(*old(self), length as nat) == Some(error)
                    && *final(self) == refused(*old(self), error),
            },
    {
        match self.state {
            BodyState::Failed(error) => return Err(error),
            BodyState::Done => return self.fail(EncodeError::FrameAfterEnd),
            BodyState::NoBody => return self.fail(EncodeError::BodyForbidden),
            _ => {},
        }
        let length64: u64 = length as u64;
        if let Some(upper) = self.remaining_upper {
            if length64 > upper {
                return self.fail(EncodeError::LengthMismatch);
            }
            self.remaining_upper = Some(upper - length64);
        }
        self.remaining_lower = if self.remaining_lower < length64 {
            0
        } else {
            self.remaining_lower - length64
        };
        let chunked = match self.state {
            BodyState::Chunked => length > 0,
            _ => false,
        };
        if chunked {
            let mut line_end: Vec<u8> = Vec::new();
            line_end.push(CR);
            line_end.push(LF);
            assert(line_end@ =~= seq![CR, LF]);
            Ok(DataFraming { prefix: chunk_prefix(length), suffix: octets::from_vec(line_end) })
        } else {
            Ok(DataFraming { prefix: InlineBuf::empty(), suffix: octets::from_vec(Vec::new()) })
        }
    }

    /// Ends the body with trailers. The driver must still see that the producer
    /// ends: an error or another frame behind the trailers spoils the exchange
    /// though its text has been made. Trailers that the machine has no memory for
    /// are refused like trailers that are too long.
    pub fn trailers(&mut self, trailers: &HeaderMap) -> (result: Result<Bytes, EncodeError>)
        ensures
            exists|granted: bool| #[trigger]
                trailers_ended(
                    *old(self),
                    fields::entries(*trailers),
                    result,
                    *final(self),
                    granted,
                ),
    {
        self.trailers_with_memory(trailers, Memory::Asked)
    }

    /// Ends the body with trailers, in this memory.
    pub fn trailers_with_memory(&mut self, trailers: &HeaderMap, memory: Memory) -> (result: Result<
        Bytes,
        EncodeError,
    >)
        ensures
            exists|granted: bool| #[trigger]
                memory.may_answer(granted) && trailers_ended(
                    *old(self),
                    fields::entries(*trailers),
                    result,
                    *final(self),
                    granted,
                ),
    {
        assert(memory.may_answer(true) || memory.may_answer(false));
        match self.state {
            BodyState::Failed(error) => return Err(error),
            BodyState::Done => return self.fail(EncodeError::FrameAfterEnd),
            BodyState::Chunked => {},
            _ => return self.fail(EncodeError::TrailersForbidden),
        }
        if self.remaining_lower != 0 {
            return self.fail(EncodeError::LengthMismatch);
        }
        if self.trailers == TrailerHint::Absent || validate_trailers(trailers).is_err() {
            return self.fail(EncodeError::TrailersForbidden);
        }
        match last_chunk(trailers, self.max_trailer_bytes, memory) {
            Ok(bytes) => {
                self.state = BodyState::Done;
                Ok(bytes)
            },
            Err(_) => self.fail(EncodeError::Limit),
        }
    }

    /// Ends the body without trailers.
    pub fn finish(&mut self) -> (result: Result<Bytes, EncodeError>)
        ensures
            match result {
                Ok(bytes) => {
                    &&& end_conflict(*old(self)) is None
                    &&& octets::octets(bytes) == end_text(old(self).state)
                    &&& *final(self) == (BodyEncoder { state: BodyState::Done, ..*old(self) })
                },
                Err(error) => end_conflict(*old(self)) == Some(error) && *final(self) == refused(
                    *old(self),
                    error,
                ),
            },
    {
        let mut ending: Vec<u8> = Vec::new();
        match self.state {
            BodyState::Failed(error) => return Err(error),
            BodyState::Done => return self.fail(EncodeError::FrameAfterEnd),
            BodyState::NoBody => {},
            _ => {
                if self.remaining_lower != 0 {
                    return self.fail(EncodeError::LengthMismatch);
                }
            },
        }
        if let BodyState::Chunked = self.state {
            ending.push(ZERO);
            ending.push(CR);
            ending.push(LF);
            ending.push(CR);
            ending.push(LF);
            assert(ending@ =~= seq![ZERO, CR, LF, CR, LF]);
        }
        self.state = BodyState::Done;
        Ok(octets::from_vec(ending))
    }
}

fn last_chunk(trailers: &HeaderMap, limit: usize, memory: Memory) -> (result: Result<
    Bytes,
    EncodeError,
>)
    ensures
        exists|granted: bool| #[trigger]
            memory.may_answer(granted) && bytes_view(result) == bounded(
                trailer_text(fields::entries(*trailers)),
                limit as nat,
                granted,
            ),
{
    let ghost text = trailer_text(fields::entries(*trailers));
    assert(memory.may_answer(true) || memory.may_answer(false));
    let mut writer = BoundedWriter::with_memory(limit, memory);
    writer.push(&[ZERO, CR, LF])?;
    write_headers(&mut writer, trailers)?;
    writer.push(&[CR, LF])?;
    assert(writer.written() =~= text);
    Ok(writer.finish())
}

/// The decimal digits of a number.
pub open spec fn decimal_digits(value: nat) -> Seq<u8>
    decreases value,
{
    if value < 10 {
        seq![(0x30 + value) as u8]
    } else {
        decimal_digits(value / 10).push((0x30 + value % 10) as u8)
    }
}

/// The decimal digits of a number are digits, and stand for the number.
pub proof fn decimal_digits_stand_for_number(value: nat)
    ensures
        values::all_digits(decimal_digits(value)),
        values::decimal_value(decimal_digits(value)) == value,
        fields::is_value(decimal_digits(value)),
        decimal_digits(value).len() > 0,
    decreases value,
{
    let digits = decimal_digits(value);
    if value < 10 {
        assert(digits.drop_last() =~= Seq::empty());
        assert(values::decimal_value(digits.drop_last()) == 0);
    } else {
        decimal_digits_stand_for_number(value / 10);
        assert(digits.drop_last() =~= decimal_digits(value / 10));
    }
    assert forall|i: int| 0 <= i < digits.len() implies fields::value_byte(#[trigger] digits[i]) by {
        assert(ascii::is_digit(digits[i]));
    }
}

/// The decimal text of a number.
pub fn decimal(value: u64) -> (result: Vec<u8>)
    ensures
        result@ == decimal_digits(value as nat),
    decreases value,
{
    let mut result = if value < 10 {
        Vec::new()
    } else {
        decimal(value / 10)
    };
    result.push(0x30 + (value % 10) as u8);
    assert(result@ =~= decimal_digits(value as nat));
    result
}

/// Why a message is refused whose own head would be refused.
pub open spec fn head_refusal(error: HeadError) -> EncodeError {
    match error {
        HeadError::Limit(_) => EncodeError::Limit,
        HeadError::UnsupportedTransferCoding | HeadError::UnsupportedVersion => {
            EncodeError::Unsupported
        },
        HeadError::AmbiguousMessageLength
        | HeadError::InvalidContentLength
        | HeadError::InvalidTransferEncoding => EncodeError::InvalidFraming,
        _ => EncodeError::InvalidHead,
    }
}

pub fn map_head_error(error: HeadError) -> (result: EncodeError)
    ensures
        result == head_refusal(error),
{
    match error {
        HeadError::Limit(_) => EncodeError::Limit,
        HeadError::UnsupportedTransferCoding | HeadError::UnsupportedVersion => {
            EncodeError::Unsupported
        },
        HeadError::AmbiguousMessageLength
        | HeadError::InvalidContentLength
        | HeadError::InvalidTransferEncoding => EncodeError::InvalidFraming,
        _ => EncodeError::InvalidHead,
    }
}

/// Whether changed fields are the expected ones. A map whose index fills up early
/// may refuse another field.
pub open spec fn fields_expected(
    result: Result<(), EncodeError>,
    before: Seq<(Seq<u8>, Seq<Seq<u8>>)>,
    after: Seq<(Seq<u8>, Seq<Seq<u8>>)>,
    expected: Result<Seq<(Seq<u8>, Seq<Seq<u8>>)>, EncodeError>,
) -> bool {
    match result {
        Ok(()) => expected == Ok::<_, EncodeError>(after),
        Err(error) => expected == Err::<Seq<(Seq<u8>, Seq<Seq<u8>>)>, _>(error)
            || (!fields::roomy(before) && error == EncodeError::Limit),
    }
}

/// The fields of a message whose body has exactly this length.
pub open spec fn with_length(headers: Seq<(Seq<u8>, Seq<Seq<u8>>)>, length: u64) -> Result<
    Seq<(Seq<u8>, Seq<Seq<u8>>)>,
    EncodeError,
> {
    match values::transfer_encoding(
        fields::values_of(headers, fields::named("transfer-encoding")),
    ) {
        Err(error) => Err(head_refusal(error)),
        Ok(Some(_)) => Err(EncodeError::InvalidFraming),
        Ok(None) => match values::content_length(
            fields::values_of(headers, fields::named("content-length")),
        ) {
            Err(error) => Err(head_refusal(error)),
            Ok(Some(declared)) => if declared == length {
                Ok(headers)
            } else {
                Err(EncodeError::LengthMismatch)
            },
            Ok(None) => Ok(
                fields::inserted(
                    headers,
                    fields::named("content-length"),
                    decimal_digits(length as nat),
                ),
            ),
        },
    }
}

/// The fields of a message whose body comes in chunks.
pub open spec fn with_chunks(headers: Seq<(Seq<u8>, Seq<Seq<u8>>)>) -> Result<
    Seq<(Seq<u8>, Seq<Seq<u8>>)>,
    EncodeError,
> {
    if fields::has_name(headers, fields::named("content-length")) {
        Err(EncodeError::InvalidFraming)
    } else {
        match values::transfer_encoding(
            fields::values_of(headers, fields::named("transfer-encoding")),
        ) {
            Err(error) => Err(head_refusal(error)),
            Ok(Some(_)) => Ok(headers),
            Ok(None) => Ok(
                fields::inserted(headers, fields::named("transfer-encoding"), chunked_text()),
            ),
        }
    }
}

/// The name of the chunked coding.
pub open spec fn chunked_text() -> Seq<u8> {
    vstd::utf8::encode_utf8("chunked"@)
}

proof fn chunked_is_value()
    ensures
        fields::is_value(chunked_text()),
{
    reveal_strlit("chunked");
    reveal_with_fuel(fields::plain_from, 8);
    fields::plain_text("chunked"@);
}

/// Declares the length of a body, unless the fields say otherwise.
pub fn set_exact_length(headers: &mut HeaderMap, length: u64) -> (result: Result<(), EncodeError>)
    ensures
        fields_expected(
            result,
            fields::entries(*old(headers)),
            fields::entries(*final(headers)),
            with_length(fields::entries(*old(headers)), length),
        ),
{
    match parse_transfer_encoding(headers) {
        Err(error) => return Err(map_head_error(error)),
        Ok(Some(_)) => return Err(EncodeError::InvalidFraming),
        Ok(None) => {},
    }
    match parse_content_length(headers) {
        Err(error) => return Err(map_head_error(error)),
        Ok(Some(declared)) => {
            return if declared == length {
                Ok(())
            } else {
                Err(EncodeError::LengthMismatch)
            };
        },
        Ok(None) => {},
    }
    proof {
        decimal_digits_stand_for_number(length as nat);
    }
    let text = decimal(length);
    let value = fields::value(text.as_slice()).unwrap();
    if fields::insert(headers, fields::content_length(), value) {
        Ok(())
    } else {
        Err(EncodeError::Limit)
    }
}

/// Declares a chunked body, unless the fields say otherwise.
pub fn set_chunked(headers: &mut HeaderMap) -> (result: Result<(), EncodeError>)
    ensures
        fields_expected(
            result,
            fields::entries(*old(headers)),
            fields::entries(*final(headers)),
            with_chunks(fields::entries(*old(headers))),
        ),
{
    if fields::contains(headers, "content-length") {
        return Err(EncodeError::InvalidFraming);
    }
    match parse_transfer_encoding(headers) {
        Err(error) => return Err(map_head_error(error)),
        Ok(Some(_)) => return Ok(()),
        Ok(None) => {},
    }
    proof {
        chunked_is_value();
    }
    let value = fields::value("chunked".as_bytes()).unwrap();
    if fields::insert(headers, fields::transfer_encoding(), value) {
        Ok(())
    } else {
        Err(EncodeError::Limit)
    }
}

/// Fields and the body mode that they declare.
pub open spec fn planned_with(
    headers: Result<Seq<(Seq<u8>, Seq<Seq<u8>>)>, EncodeError>,
    mode: BodyMode,
) -> Result<(Seq<(Seq<u8>, Seq<Seq<u8>>)>, BodyMode), EncodeError> {
    match headers {
        Ok(headers) => Ok((headers, mode)),
        Err(error) => Err(error),
    }
}

/// Whether a plan is the expected one. A map whose index fills up early may
/// refuse another field.
pub open spec fn plan_expected(
    result: Result<BodyMode, EncodeError>,
    before: Seq<(Seq<u8>, Seq<Seq<u8>>)>,
    after: Seq<(Seq<u8>, Seq<Seq<u8>>)>,
    expected: Result<(Seq<(Seq<u8>, Seq<Seq<u8>>)>, BodyMode), EncodeError>,
) -> bool {
    match result {
        Ok(mode) => expected == Ok::<_, EncodeError>((after, mode)),
        Err(error) => expected == Err::<(Seq<(Seq<u8>, Seq<Seq<u8>>)>, BodyMode), _>(error)
            || (!fields::roomy(before) && error == EncodeError::Limit),
    }
}

/// The exact length of a body without trailers.
pub open spec fn known_length(metadata: BodyMetadata) -> Option<u64> {
    if metadata.trailers == TrailerHint::Absent {
        metadata.size.agreed()
    } else {
        None
    }
}

/// How the body of a request is framed: by its length where that is known and no
/// trailers may follow, in chunks otherwise.
pub open spec fn request_plan(
    headers: Seq<(Seq<u8>, Seq<Seq<u8>>)>,
    version: Version,
    metadata: BodyMetadata,
) -> Result<(Seq<(Seq<u8>, Seq<Seq<u8>>)>, BodyMode), EncodeError> {
    match known_length(metadata) {
        Some(length) => planned_with(with_length(headers, length), BodyMode::Fixed(length)),
        None => if version != Version::Http11 {
            Err(EncodeError::Unsupported)
        } else {
            planned_with(with_chunks(headers), BodyMode::Chunked)
        },
    }
}

/// How a representation is framed: by its length where that is known and no
/// trailers may follow, in chunks where the version has them, by the end of the
/// connection otherwise.
pub open spec fn representation_plan(
    headers: Seq<(Seq<u8>, Seq<Seq<u8>>)>,
    version: Version,
    metadata: BodyMetadata,
) -> Result<(Seq<(Seq<u8>, Seq<Seq<u8>>)>, BodyMode), EncodeError> {
    match known_length(metadata) {
        Some(length) => planned_with(with_length(headers, length), BodyMode::Fixed(length)),
        None => if version == Version::Http11 {
            planned_with(with_chunks(headers), BodyMode::Chunked)
        } else if metadata.trailers == TrailerHint::MayHave {
            Err(EncodeError::TrailersForbidden)
        } else if fields::has_name(headers, fields::named("content-length")) || fields::has_name(
            headers,
            fields::named("transfer-encoding"),
        ) {
            Err(EncodeError::InvalidFraming)
        } else {
            Ok((headers, BodyMode::UntilEof))
        },
    }
}

/// Whether a producer promises no payload and no trailers.
pub open spec fn promises_nothing(metadata: BodyMetadata) -> bool {
    metadata.size.agreed() == Some(0u64) && metadata.trailers == TrailerHint::Absent
}

/// How the body of a response is framed. A response that may not have a body is
/// refused one; a response that only describes a representation keeps the fields
/// that describe it.
pub open spec fn response_plan(
    headers: Seq<(Seq<u8>, Seq<Seq<u8>>)>,
    version: Version,
    status: u16,
    metadata: BodyMetadata,
    method: Seq<u8>,
) -> Result<(Seq<(Seq<u8>, Seq<Seq<u8>>)>, BodyMode), EncodeError> {
    let tunnel = method == message::method_named("CONNECT") && 200 <= status < 300;
    if tunnel || 100 <= status < 200 || status == 204 {
        if !promises_nothing(metadata) || fields::has_name(
            headers,
            fields::named("content-length"),
        ) || fields::has_name(headers, fields::named("transfer-encoding")) {
            Err(EncodeError::BodyForbidden)
        } else {
            Ok((headers, BodyMode::Empty))
        }
    } else if method == message::method_named("HEAD") || status == 304 {
        match representation_plan(headers, version, metadata) {
            Ok((headers, _)) => Ok((headers, BodyMode::Empty)),
            Err(error) => Err(error),
        }
    } else if status == 205 {
        if !promises_nothing(metadata) || fields::has_name(
            headers,
            fields::named("transfer-encoding"),
        ) {
            Err(EncodeError::BodyForbidden)
        } else {
            planned_with(with_length(headers, 0), BodyMode::Fixed(0))
        }
    } else {
        representation_plan(headers, version, metadata)
    }
}

fn exact_without_trailers(metadata: &BodyMetadata) -> (result: Option<u64>)
    ensures
        result == known_length(*metadata),
{
    match metadata.trailers {
        TrailerHint::Absent => metadata.size.exact(),
        TrailerHint::MayHave => None,
    }
}

/// Plans the framing of a request body.
pub fn plan_request_framing(
    headers: &mut HeaderMap,
    version: Version,
    metadata: BodyMetadata,
) -> (result: Result<BodyMode, EncodeError>)
    ensures
        plan_expected(
            result,
            fields::entries(*old(headers)),
            fields::entries(*final(headers)),
            request_plan(fields::entries(*old(headers)), version, metadata),
        ),
{
    if let Some(length) = exact_without_trailers(&metadata) {
        return match set_exact_length(headers, length) {
            Ok(()) => Ok(BodyMode::Fixed(length)),
            Err(error) => Err(error),
        };
    }
    if version != Version::Http11 {
        return Err(EncodeError::Unsupported);
    }
    match set_chunked(headers) {
        Ok(()) => Ok(BodyMode::Chunked),
        Err(error) => Err(error),
    }
}

/// Plans the framing of a representation.
pub fn plan_representation_framing(
    headers: &mut HeaderMap,
    version: Version,
    metadata: BodyMetadata,
) -> (result: Result<BodyMode, EncodeError>)
    ensures
        plan_expected(
            result,
            fields::entries(*old(headers)),
            fields::entries(*final(headers)),
            representation_plan(fields::entries(*old(headers)), version, metadata),
        ),
{
    if let Some(length) = exact_without_trailers(&metadata) {
        return match set_exact_length(headers, length) {
            Ok(()) => Ok(BodyMode::Fixed(length)),
            Err(error) => Err(error),
        };
    }
    if version == Version::Http11 {
        return match set_chunked(headers) {
            Ok(()) => Ok(BodyMode::Chunked),
            Err(error) => Err(error),
        };
    }
    if metadata.trailers == TrailerHint::MayHave {
        return Err(EncodeError::TrailersForbidden);
    }
    if fields::contains(headers, "content-length") || fields::contains(
        headers,
        "transfer-encoding",
    ) {
        return Err(EncodeError::InvalidFraming);
    }
    Ok(BodyMode::UntilEof)
}

/// Plans the framing of a response body.
pub fn plan_response_framing(
    headers: &mut HeaderMap,
    version: Version,
    status: StatusCode,
    metadata: BodyMetadata,
    request_method: &Method,
) -> (result: Result<BodyMode, EncodeError>)
    ensures
        plan_expected(
            result,
            fields::entries(*old(headers)),
            fields::entries(*final(headers)),
            response_plan(
                fields::entries(*old(headers)),
                version,
                status.number(),
                metadata,
                request_method@,
            ),
        ),
{
    let code = status.as_u16();
    let tunnel = request_method.is("CONNECT") && status.is_success();
    let nothing = match metadata.size.exact() {
        Some(length) => length == 0 && metadata.trailers == TrailerHint::Absent,
        None => false,
    };
    if tunnel || status.is_informational() || code == 204 {
        if !nothing || fields::contains(headers, "content-length") || fields::contains(
            headers,
            "transfer-encoding",
        ) {
            return Err(EncodeError::BodyForbidden);
        }
        return Ok(BodyMode::Empty);
    }
    if request_method.is("HEAD") || code == 304 {
        return match plan_representation_framing(headers, version, metadata) {
            Ok(_) => Ok(BodyMode::Empty),
            Err(error) => Err(error),
        };
    }
    if code == 205 {
        if !nothing || fields::contains(headers, "transfer-encoding") {
            return Err(EncodeError::BodyForbidden);
        }
        return match set_exact_length(headers, 0) {
            Ok(()) => Ok(BodyMode::Fixed(0)),
            Err(error) => Err(error),
        };
    }
    plan_representation_framing(headers, version, metadata)
}

/// The text of a message head and what follows it.
#[derive(Debug)]
pub struct EncodedHead {
    pub bytes: Bytes,
    pub mode: BodyMode,
    pub upgrade: Option<UpgradeKind>,
    pub persistence: Persistence,
}

/// The minor version number of a version that can be written.
pub open spec fn minor_of(version: Version) -> Option<u8> {
    match version {
        Version::Http10 => Some(0),
        Version::Http11 => Some(1),
        _ => None,
    }
}

/// The text of a version.
pub fn version_bytes(version: Version) -> (result: Result<Vec<u8>, EncodeError>)
    ensures
        match result {
            Ok(text) => minor_of(version) is Some && text@ == wire::version_text(
                minor_of(version)->0,
            ),
            Err(error) => minor_of(version) is None && error == EncodeError::Unsupported,
        },
{
    let minor: u8 = match version {
        Version::Http10 => 0,
        Version::Http11 => 1,
        _ => return Err(EncodeError::Unsupported),
    };
    let mut text: Vec<u8> = Vec::new();
    text.push(0x48);
    text.push(0x54);
    text.push(0x54);
    text.push(0x50);
    text.push(0x2f);
    text.push(0x31);
    text.push(0x2e);
    text.push(0x30 + minor);
    assert(text@ =~= wire::version_text(minor));
    Ok(text)
}

/// The meaning of a request that is to be sent, its body framed.
pub open spec fn planned_request(head: RequestView, metadata: BodyMetadata) -> Result<
    RequestMeaning,
    EncodeError,
> {
    match request_plan(head.headers, head.version, metadata) {
        Err(error) => Err(error),
        Ok((headers, mode)) => match validate::request_meaning(
            RequestView { headers, ..head },
            false,
        ) {
            Err(error) => Err(head_refusal(error)),
            Ok(meaning) => if meaning.body == mode {
                Ok(meaning)
            } else {
                Err(EncodeError::InvalidFraming)
            },
        },
    }
}

/// The meaning of a response that is to be sent, its body framed.
pub open spec fn planned_response(
    head: ResponseView,
    metadata: BodyMetadata,
    method: Seq<u8>,
) -> Result<ResponseMeaning, EncodeError> {
    match response_plan(head.headers, head.version, head.status, metadata, method) {
        Err(error) => Err(error),
        Ok((headers, mode)) => match validate::response_meaning(
            ResponseView { headers, ..head },
            method,
        ) {
            Err(error) => Err(head_refusal(error)),
            Ok(meaning) => if meaning.body == mode {
                Ok(meaning)
            } else {
                Err(EncodeError::InvalidFraming)
            },
        },
    }
}

/// The text of a request head.
pub open spec fn request_bytes(head: RequestView) -> Seq<u8> {
    head::request_text(
        head.method,
        head.target.text,
        minor_of(head.version)->0,
        fields::lines(head.headers),
    )
}

/// The reason that is sent with a status.
pub open spec fn reason_text(status: u16) -> Seq<u8> {
    match start_line::reason_of(status) {
        Some(reason) => vstd::utf8::encode_utf8(reason),
        None => Seq::empty(),
    }
}

/// The text of a response head.
pub open spec fn response_bytes(head: ResponseView) -> Seq<u8> {
    head::response_text(
        minor_of(head.version)->0,
        head.status,
        reason_text(head.status),
        fields::lines(head.headers),
    )
}

/// What comes of writing a request head, where `granted` says whether there is
/// memory for its text. A version that cannot be written is refused once the text
/// in front of it is.
pub open spec fn request_written(head: RequestView, limit: nat, granted: bool) -> Result<
    Seq<u8>,
    EncodeError,
> {
    if minor_of(head.version) is Some {
        bounded(request_bytes(head), limit, granted)
    } else if granted && head.method.len() + head.target.text.len() + 2 <= limit {
        Err(EncodeError::Unsupported)
    } else {
        Err(EncodeError::Limit)
    }
}

/// What comes of writing a response head, where `granted` says whether there is
/// memory for its text. A version that cannot be written is refused first.
pub open spec fn response_written(head: ResponseView, limit: nat, granted: bool) -> Result<
    Seq<u8>,
    EncodeError,
> {
    if minor_of(head.version) is Some {
        bounded(response_bytes(head), limit, granted)
    } else {
        Err(EncodeError::Unsupported)
    }
}

/// Writes a request head, in this memory.
pub fn write_request(head: &RequestHead, limit: usize, memory: Memory) -> (result: Result<
    Bytes,
    EncodeError,
>)
    ensures
        exists|granted: bool| #[trigger]
            memory.may_answer(granted) && bytes_view(result) == request_written(
                head@,
                limit as nat,
                granted,
            ),
{
    let ghost text = request_bytes(head@);
    assert(memory.may_answer(true) || memory.may_answer(false));
    let mut writer = BoundedWriter::with_memory(limit, memory);
    writer.push(head.method.as_bytes())?;
    writer.push(&[ascii::SP])?;
    writer.push(head.target.text.as_slice())?;
    writer.push(&[ascii::SP])?;
    writer.push(version_bytes(head.version)?.as_slice())?;
    writer.push(&[CR, LF])?;
    assert(writer.written() =~= wire::request_line(
        head@.method,
        head@.target.text,
        minor_of(head@.version)->0,
    ));
    write_headers(&mut writer, &head.headers)?;
    writer.push(&[CR, LF])?;
    assert(writer.written() =~= text);
    Ok(writer.finish())
}

/// Writes a response head, in this memory.
pub fn write_response(head: &ResponseHead, limit: usize, memory: Memory) -> (result: Result<
    Bytes,
    EncodeError,
>)
    ensures
        exists|granted: bool| #[trigger]
            memory.may_answer(granted) && bytes_view(result) == response_written(
                head@,
                limit as nat,
                granted,
            ),
{
    let ghost text = response_bytes(head@);
    assert(memory.may_answer(true) || memory.may_answer(false));
    let mut writer = BoundedWriter::with_memory(limit, memory);
    let version = version_bytes(head.version)?;
    writer.push(version.as_slice())?;
    writer.push(&[ascii::SP])?;
    writer.push(head.status.digits().as_slice())?;
    writer.push(&[ascii::SP])?;
    match start_line::reason(head.status.as_u16()) {
        Some(reason) => writer.push(reason.as_bytes())?,
        None => writer.push(&[])?,
    }
    writer.push(&[CR, LF])?;
    assert(writer.written() =~= wire::status_line(
        minor_of(head@.version)->0,
        head@.status,
        reason_text(head@.status),
    ));
    write_headers(&mut writer, &head.headers)?;
    writer.push(&[CR, LF])?;
    assert(writer.written() =~= text);
    Ok(writer.finish())
}

proof fn plan_adds_one_field(
    headers: Seq<(Seq<u8>, Seq<Seq<u8>>)>,
    version: Version,
    metadata: BodyMetadata,
)
    ensures
        request_plan(headers, version, metadata) matches Ok((planned, _)) ==> planned.len()
            <= headers.len() + 1,
{
    if let Some(length) = known_length(metadata) {
        fields::inserted_len(
            headers,
            fields::named("content-length"),
            decimal_digits(length as nat),
        );
    }
    fields::inserted_len(headers, fields::named("transfer-encoding"), chunked_text());
}

/// Why a request is not sent, if it is not, where `granted` says whether there is
/// memory for its head.
pub open spec fn request_refusal(
    head: RequestView,
    metadata: BodyMetadata,
    limits: EncodeLimits,
    granted: bool,
) -> Option<EncodeError> {
    match planned_request(head, metadata) {
        Err(error) => Some(error),
        Ok(meaning) => match request_written(
            meaning.head,
            limits.max_head_bytes as nat,
            granted,
        ) {
            Err(error) => Some(error),
            Ok(_) => None,
        },
    }
}

/// Why a response is not sent, if it is not, where `granted` says whether there is
/// memory for its head.
pub open spec fn response_refusal(
    head: ResponseView,
    metadata: BodyMetadata,
    method: Seq<u8>,
    limits: EncodeLimits,
    granted: bool,
) -> Option<EncodeError> {
    match planned_response(head, metadata, method) {
        Err(error) => Some(error),
        Ok(meaning) => match response_written(
            meaning.head,
            limits.max_head_bytes as nat,
            granted,
        ) {
            Err(error) => Some(error),
            Ok(_) => None,
        },
    }
}

/// Whether a result is what preparing a request leads to, where `granted` says
/// whether there is memory for its head. A map whose index fills up early may
/// refuse another field.
pub open spec fn request_prepared(
    head: RequestView,
    metadata: BodyMetadata,
    limits: EncodeLimits,
    result: Result<(EncodedHead, RequestMeaning), EncodeError>,
    granted: bool,
) -> bool {
    let planned = planned_request(head, metadata);
    match result {
        Ok((encoded, meaning)) => {
            &&& planned == Ok::<RequestMeaning, EncodeError>(meaning)
            &&& request_written(meaning.head, limits.max_head_bytes as nat, granted) == Ok::<
                Seq<u8>,
                EncodeError,
            >(octets::octets(encoded.bytes))
            &&& encoded.mode == meaning.body
            &&& encoded.persistence == meaning.persistence
            &&& encoded.upgrade is None
        },
        Err(error) => {
            ||| request_refusal(head, metadata, limits, granted) == Some(error)
            ||| fields::nearly_full(head.headers) && error == EncodeError::Limit
        },
    }
}

/// Whether a result is what preparing a response leads to, where `granted` says
/// whether there is memory for its head. A map whose index fills up early may
/// refuse another field.
pub open spec fn response_prepared(
    head: ResponseView,
    metadata: BodyMetadata,
    method: Seq<u8>,
    limits: EncodeLimits,
    result: Result<(EncodedHead, ResponseMeaning), EncodeError>,
    granted: bool,
) -> bool {
    let planned = planned_response(head, metadata, method);
    match result {
        Ok((encoded, meaning)) => {
            &&& planned == Ok::<ResponseMeaning, EncodeError>(meaning)
            &&& response_written(meaning.head, limits.max_head_bytes as nat, granted) == Ok::<
                Seq<u8>,
                EncodeError,
            >(octets::octets(encoded.bytes))
            &&& encoded.mode == meaning.body
            &&& encoded.persistence == meaning.persistence
            &&& encoded.upgrade == meaning.upgrade
        },
        Err(error) => {
            ||| response_refusal(head, metadata, method, limits, granted) == Some(error)
            ||| fields::nearly_full(head.headers) && error == EncodeError::Limit
        },
    }
}

/// A prepared request as mathematical content.
pub open spec fn request_result(
    result: Result<(EncodedHead, ValidatedRequestHead), EncodeError>,
) -> Result<(EncodedHead, RequestMeaning), EncodeError> {
    match result {
        Ok((encoded, validated)) => Ok((encoded, validated@)),
        Err(error) => Err(error),
    }
}

/// A prepared response as mathematical content.
pub open spec fn response_result(
    result: Result<(EncodedHead, ValidatedResponseHead), EncodeError>,
) -> Result<(EncodedHead, ResponseMeaning), EncodeError> {
    match result {
        Ok((encoded, validated)) => Ok((encoded, validated@)),
        Err(error) => Err(error),
    }
}

/// An encoded request head with the meaning that was planned for it.
pub open spec fn request_with_plan(
    head: RequestView,
    metadata: BodyMetadata,
    result: Result<EncodedHead, EncodeError>,
) -> Result<(EncodedHead, RequestMeaning), EncodeError> {
    match result {
        Ok(encoded) => Ok((encoded, planned_request(head, metadata)->Ok_0)),
        Err(error) => Err(error),
    }
}

/// An encoded response head with the meaning that was planned for it.
pub open spec fn response_with_plan(
    head: ResponseView,
    metadata: BodyMetadata,
    method: Seq<u8>,
    result: Result<EncodedHead, EncodeError>,
) -> Result<(EncodedHead, ResponseMeaning), EncodeError> {
    match result {
        Ok(encoded) => Ok((encoded, planned_response(head, metadata, method)->Ok_0)),
        Err(error) => Err(error),
    }
}

/// The request head that is to be sent.
pub open spec fn outgoing_request(
    method: Method,
    target: Target,
    version: Version,
    headers: HeaderMap,
) -> RequestView {
    RequestView { method: method@, target: target@, version, headers: fields::entries(headers) }
}

/// The response head that is to be sent.
pub open spec fn outgoing_response(
    status: StatusCode,
    version: Version,
    headers: HeaderMap,
) -> ResponseView {
    ResponseView { version, status: status.number(), headers: fields::entries(headers) }
}

/// Frames a request, determines what it asks for and writes its head. A head
/// that is too long is refused with the same error as one that the machine has
/// no memory for, or whose fields fill up the index of their map.
pub fn prepare_request_head(
    method: Method,
    target: Target,
    version: Version,
    headers: HeaderMap,
    metadata: BodyMetadata,
    limits: EncodeLimits,
) -> (result: Result<(EncodedHead, ValidatedRequestHead), EncodeError>)
    ensures
        exists|granted: bool| #[trigger]
            request_prepared(
                outgoing_request(method, target, version, headers),
                metadata,
                limits,
                request_result(result),
                granted,
            ),
{
    prepare_request_head_with_memory(
        method,
        target,
        version,
        headers,
        metadata,
        limits,
        Memory::Asked,
    )
}

/// Frames a request, determines what it asks for and writes its head, in this
/// memory.
pub fn prepare_request_head_with_memory(
    method: Method,
    target: Target,
    version: Version,
    headers: HeaderMap,
    metadata: BodyMetadata,
    limits: EncodeLimits,
    memory: Memory,
) -> (result: Result<(EncodedHead, ValidatedRequestHead), EncodeError>)
    ensures
        exists|granted: bool| #[trigger]
            memory.may_answer(granted) && request_prepared(
                outgoing_request(method, target, version, headers),
                metadata,
                limits,
                request_result(result),
                granted,
            ),
{
    let mut headers = headers;
    assert(memory.may_answer(true) || memory.may_answer(false));
    proof {
        plan_adds_one_field(fields::entries(headers), version, metadata);
    }
    let mode = match plan_request_framing(&mut headers, version, metadata) {
        Ok(mode) => mode,
        Err(error) => return Err(error),
    };
    let head = RequestHead { method, target, version, headers };
    let validated = match head.validate() {
        Ok(validated) => validated,
        Err(error) => return Err(map_head_error(error)),
    };
    if validated.body != mode {
        return Err(EncodeError::InvalidFraming);
    }
    let bytes = match write_request(&validated.head, limits.max_head_bytes, memory) {
        Ok(bytes) => bytes,
        Err(error) => return Err(error),
    };
    let persistence = validated.persistence;
    Ok((EncodedHead { bytes, mode, upgrade: None, persistence }, validated))
}

/// Frames a request and writes its head.
pub fn encode_request_head(
    method: Method,
    target: Target,
    version: Version,
    headers: HeaderMap,
    metadata: BodyMetadata,
    limits: EncodeLimits,
) -> (result: Result<EncodedHead, EncodeError>)
    ensures
        ({
            let head = outgoing_request(method, target, version, headers);
            exists|granted: bool| #[trigger]
                request_prepared(
                    head,
                    metadata,
                    limits,
                    request_with_plan(head, metadata, result),
                    granted,
                )
        }),
{
    encode_request_head_with_memory(
        method,
        target,
        version,
        headers,
        metadata,
        limits,
        Memory::Asked,
    )
}

/// Frames a request and writes its head, in this memory.
pub fn encode_request_head_with_memory(
    method: Method,
    target: Target,
    version: Version,
    headers: HeaderMap,
    metadata: BodyMetadata,
    limits: EncodeLimits,
    memory: Memory,
) -> (result: Result<EncodedHead, EncodeError>)
    ensures
        ({
            let head = outgoing_request(method, target, version, headers);
            exists|granted: bool| #[trigger]
                memory.may_answer(granted) && request_prepared(
                    head,
                    metadata,
                    limits,
                    request_with_plan(head, metadata, result),
                    granted,
                )
        }),
{
    match prepare_request_head_with_memory(
        method,
        target,
        version,
        headers,
        metadata,
        limits,
        memory,
    ) {
        Ok((encoded, _)) => Ok(encoded),
        Err(error) => Err(error),
    }
}

/// Frames a response to a request of this method, determines what it means and
/// writes its head. A head that is too long is refused with the same error as
/// one that the machine has no memory for, or whose fields fill up the index of
/// their map.
pub fn prepare_response_head(
    status: StatusCode,
    version: Version,
    headers: HeaderMap,
    metadata: BodyMetadata,
    request_method: &Method,
    limits: EncodeLimits,
) -> (result: Result<(EncodedHead, ValidatedResponseHead), EncodeError>)
    ensures
        exists|granted: bool| #[trigger]
            response_prepared(
                outgoing_response(status, version, headers),
                metadata,
                request_method@,
                limits,
                response_result(result),
                granted,
            ),
{
    prepare_response_head_with_memory(
        status,
        version,
        headers,
        metadata,
        request_method,
        limits,
        Memory::Asked,
    )
}

/// Frames a response to a request of this method, determines what it means and
/// writes its head, in this memory.
pub fn prepare_response_head_with_memory(
    status: StatusCode,
    version: Version,
    headers: HeaderMap,
    metadata: BodyMetadata,
    request_method: &Method,
    limits: EncodeLimits,
    memory: Memory,
) -> (result: Result<(EncodedHead, ValidatedResponseHead), EncodeError>)
    ensures
        exists|granted: bool| #[trigger]
            memory.may_answer(granted) && response_prepared(
                outgoing_response(status, version, headers),
                metadata,
                request_method@,
                limits,
                response_result(result),
                granted,
            ),
{
    let mut headers = headers;
    assert(memory.may_answer(true) || memory.may_answer(false));
    let mode = match plan_response_framing(
        &mut headers,
        version,
        status,
        metadata,
        request_method,
    ) {
        Ok(mode) => mode,
        Err(error) => return Err(error),
    };
    let head = ResponseHead { version, status, headers };
    let validated = match head.validate(request_method) {
        Ok(validated) => validated,
        Err(error) => return Err(map_head_error(error)),
    };
    if validated.body != mode {
        return Err(EncodeError::InvalidFraming);
    }
    let bytes = match write_response(&validated.head, limits.max_head_bytes, memory) {
        Ok(bytes) => bytes,
        Err(error) => return Err(error),
    };
    let persistence = validated.persistence;
    let upgrade = validated.upgrade;
    Ok((EncodedHead { bytes, mode, upgrade, persistence }, validated))
}

/// Frames a response to a request of this method and writes its head.
pub fn encode_response_head(
    status: StatusCode,
    version: Version,
    headers: HeaderMap,
    metadata: BodyMetadata,
    request_method: &Method,
    limits: EncodeLimits,
) -> (result: Result<EncodedHead, EncodeError>)
    ensures
        ({
            let head = outgoing_response(status, version, headers);
            exists|granted: bool| #[trigger]
                response_prepared(
                    head,
                    metadata,
                    request_method@,
                    limits,
                    response_with_plan(head, metadata, request_method@, result),
                    granted,
                )
        }),
{
    encode_response_head_with_memory(
        status,
        version,
        headers,
        metadata,
        request_method,
        limits,
        Memory::Asked,
    )
}

/// Frames a response to a request of this method and writes its head, in this
/// memory.
pub fn encode_response_head_with_memory(
    status: StatusCode,
    version: Version,
    headers: HeaderMap,
    metadata: BodyMetadata,
    request_method: &Method,
    limits: EncodeLimits,
    memory: Memory,
) -> (result: Result<EncodedHead, EncodeError>)
    ensures
        ({
            let head = outgoing_response(status, version, headers);
            exists|granted: bool| #[trigger]
                memory.may_answer(granted) && response_prepared(
                    head,
                    metadata,
                    request_method@,
                    limits,
                    response_with_plan(head, metadata, request_method@, result),
                    granted,
                )
        }),
{
    match prepare_response_head_with_memory(
        status,
        version,
        headers,
        metadata,
        request_method,
        limits,
        memory,
    ) {
        Ok((encoded, _)) => Ok(encoded),
        Err(error) => Err(error),
    }
}

} // verus!
