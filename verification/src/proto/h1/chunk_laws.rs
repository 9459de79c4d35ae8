//! What holds of the sizes and the ends of received bodies.

use crate::ascii::{self, CR, LF, SEMICOLON};
use crate::outside::fields;
use crate::outside::wire;
use crate::proto::h1::codec_laws;
use crate::proto::h1::decode::{
    self, BodyDecoder, ChunkState, DecodeError, DecodeLimit, DecodeLimits, DecodeOutcome, DecoderState,
};
use crate::proto::h1::decode_laws::{self, Run, RunEnd};
use crate::proto::h1::encode;
use crate::proto::h1::head;
use crate::proto::h1::syntax;
use crate::proto::h1::text_laws::{blank, same_letter, same_letters};
use crate::proto::h1::BodyMode;
use vstd::prelude::*;

verus! {

/// Whether a byte is the hexadecimal digit of a number, in either case.
pub open spec fn digit_for(byte: u8, value: nat) -> bool {
    ||| value < 10 && byte == '0' as u8 + value
    ||| 10 <= value < 16 && byte == 'a' as u8 + value - 10
    ||| 10 <= value < 16 && byte == 'A' as u8 + value - 10
}

pub open spec fn is_digit(byte: u8) -> bool {
    exists|value: nat| digit_for(byte, value)
}

proof fn digit_is_known(byte: u8)
    ensures
        ascii::is_hex(byte) <==> is_digit(byte),
        is_digit(byte) ==> digit_for(byte, decode::hex_digit(byte)),
        forall|value: nat| digit_for(byte, value) ==> decode::hex_digit(byte) == value,
        is_digit(byte) ==> !blank(byte) && byte != SEMICOLON && byte != CR && byte != LF,
{
    if ascii::is_hex(byte) {
        assert(digit_for(byte, decode::hex_digit(byte)));
    }
}

proof fn plain_line_is_all_digits(line: Seq<u8>)
    requires
        forall|i: int| 0 <= i < line.len() ==> is_digit(#[trigger] line[i]),
    ensures
        decode::size_digits(line) == line,
        decode::all_hex(line),
        ascii::position(line, SEMICOLON) == line.len(),
        decode::extensions_valid(line.skip(line.len() as int)),
{
    assert forall|i: int| 0 <= i < line.len() implies ascii::is_hex(#[trigger] line[i]) && line[i]
        != SEMICOLON && !blank(line[i]) by {
        digit_is_known(line[i]);
    }
    ascii::position_is_unique(line, SEMICOLON, line.len());
    assert(line.take(line.len() as int) =~= line);
    if line.len() > 0 {
        assert(!blank(line[line.len() - 1]));
    }
    assert(line.skip(line.len() as int) =~= Seq::empty());
}

/// A chunk line counts in sixteens: one more digit, in either case, makes the size
/// sixteen times what it was and adds the digit. A size that does not fit is
/// refused.
pub proof fn sizes_count_in_sixteens(
    line: &[u8],
    longer: &[u8],
    digit: u8,
    value: nat,
    before: Result<u64, DecodeError>,
    after: Result<u64, DecodeError>,
)
    requires
        call_ensures(decode::parse_chunk_line, (line,), before),
        call_ensures(decode::parse_chunk_line, (longer,), after),
        longer@ == line@.push(digit),
        forall|i: int| 0 <= i < line@.len() ==> is_digit(#[trigger] line@[i]),
        digit_for(digit, value),
    ensures
        line@.len() == 0 ==> before == Err::<u64, _>(DecodeError::InvalidChunkSize) && after
            == Ok::<u64, DecodeError>(value as u64),
        before matches Ok(size) ==> after == (if 16 * size + value <= u64::MAX {
            Ok((16 * size + value) as u64)
        } else {
            Err(DecodeError::InvalidChunkSize)
        }),
        line@.len() > 0 && before is Err ==> after == Err::<u64, _>(DecodeError::InvalidChunkSize),
{
    digit_is_known(digit);
    assert forall|i: int| 0 <= i < longer@.len() implies is_digit(#[trigger] longer@[i]) by {
        if i < line@.len() {
            assert(longer@[i] == line@[i]);
        }
    }
    plain_line_is_all_digits(line@);
    plain_line_is_all_digits(longer@);
    assert(longer@.drop_last() =~= line@);
}

proof fn trailing_ignores_case(left: Seq<u8>, right: Seq<u8>)
    requires
        same_letters(left, right),
    ensures
        same_letters(syntax::without_trailing(left), syntax::without_trailing(right)),
    decreases left.len(),
{
    if left.len() > 0 {
        assert(same_letter(left[left.len() - 1], right[left.len() - 1]));
        assert(same_letters(left.drop_last(), right.drop_last()));
        if syntax::is_ows(left.last()) {
            trailing_ignores_case(left.drop_last(), right.drop_last());
        }
    }
}

proof fn value_ignores_case(left: Seq<u8>, right: Seq<u8>)
    requires
        same_letters(left, right),
    ensures
        decode::all_hex(left) == decode::all_hex(right),
        decode::all_hex(left) ==> decode::hex_value(left) == decode::hex_value(right),
    decreases left.len(),
{
    if decode::all_hex(left) {
        assert forall|i: int| 0 <= i < right.len() implies ascii::is_hex(#[trigger] right[i]) by {
            assert(same_letter(left[i], right[i]));
            assert(ascii::is_hex(left[i]));
        }
    }
    if decode::all_hex(right) {
        assert forall|i: int| 0 <= i < left.len() implies ascii::is_hex(#[trigger] left[i]) by {
            assert(same_letter(left[i], right[i]));
            assert(ascii::is_hex(right[i]));
        }
    }
    if left.len() > 0 && decode::all_hex(left) {
        let last = left.len() - 1;
        assert(same_letter(left[last], right[last]));
        assert(ascii::is_hex(left[last]) && ascii::is_hex(right[last]));
        assert(same_letters(left.drop_last(), right.drop_last()));
        assert forall|i: int| 0 <= i < left.drop_last().len() implies ascii::is_hex(
            #[trigger] left.drop_last()[i],
        ) by {
            assert(ascii::is_hex(left[i]));
        }
        value_ignores_case(left.drop_last(), right.drop_last());
    }
}

/// The size of a chunk line does not depend on the case of its digits: a line and
/// the same line with other letters in front of its extensions announce the same
/// size, or are refused alike.
pub proof fn sizes_ignore_case(
    left: &[u8],
    right: &[u8],
    left_digits: Seq<u8>,
    right_digits: Seq<u8>,
    extensions: Seq<u8>,
    left_size: Result<u64, DecodeError>,
    right_size: Result<u64, DecodeError>,
)
    requires
        call_ensures(decode::parse_chunk_line, (left,), left_size),
        call_ensures(decode::parse_chunk_line, (right,), right_size),
        left@ == left_digits + extensions,
        right@ == right_digits + extensions,
        same_letters(left_digits, right_digits),
        forall|i: int| 0 <= i < left_digits.len() ==> #[trigger] left_digits[i] != ';' as u8,
        extensions.len() > 0 ==> extensions[0] == ';' as u8,
    ensures
        left_size == right_size,
{
    sizes_by_digits(left_digits, extensions);
    assert forall|i: int| 0 <= i < right_digits.len() implies #[trigger] right_digits[i]
        != ';' as u8 by {
        assert(same_letter(left_digits[i], right_digits[i]));
    }
    sizes_by_digits(right_digits, extensions);
    trailing_ignores_case(left_digits, right_digits);
    value_ignores_case(
        syntax::without_trailing(left_digits),
        syntax::without_trailing(right_digits),
    );
}

proof fn sizes_by_digits(digits: Seq<u8>, extensions: Seq<u8>)
    requires
        forall|i: int| 0 <= i < digits.len() ==> #[trigger] digits[i] != SEMICOLON,
        extensions.len() > 0 ==> extensions[0] == SEMICOLON,
    ensures
        decode::size_digits(digits + extensions) == syntax::without_trailing(digits),
        (digits + extensions).skip(ascii::position(digits + extensions, SEMICOLON) as int)
            == extensions,
{
    let line = digits + extensions;
    assert forall|i: int| 0 <= i < digits.len() implies line[i] != SEMICOLON by {
        assert(line[i] == digits[i]);
    }
    ascii::position_is_unique(line, SEMICOLON, digits.len());
    assert(line.take(digits.len() as int) =~= digits);
    assert(line.skip(digits.len() as int) =~= extensions);
}

proof fn trailing_is_a_prefix(text: Seq<u8>)
    ensures
        syntax::without_trailing(text).len() <= text.len(),
        forall|i: int|
            0 <= i < syntax::without_trailing(text).len() ==> #[trigger] text[i]
                == syntax::without_trailing(text)[i],
        forall|i: int|
            syntax::without_trailing(text).len() <= i < text.len() ==> blank(#[trigger] text[i]),
    decreases text.len(),
{
    if text.len() > 0 && syntax::is_ows(text.last()) {
        trailing_is_a_prefix(text.drop_last());
        let kept = syntax::without_trailing(text);
        assert forall|i: int| 0 <= i < kept.len() implies #[trigger] text[i] == kept[i] by {
            assert(text.drop_last()[i] == kept[i]);
        }
        assert forall|i: int| kept.len() <= i < text.len() implies blank(#[trigger] text[i]) by {
            if i < text.len() - 1 {
                assert(blank(text.drop_last()[i]));
            }
        }
    }
}

/// A chunk line that announces a size starts with a digit, and has digits only up
/// to whitespace, its extensions or its end.
pub proof fn sizes_are_digits(line: &[u8], result: Result<u64, DecodeError>)
    requires
        call_ensures(decode::parse_chunk_line, (line,), result),
    ensures
        result is Ok ==> line@.len() > 0 && is_digit(line@[0]),
        result is Ok ==> forall|i: int|
            0 <= i < line@.len() && (forall|j: int| 0 <= j <= i ==> #[trigger] line@[j] != ';' as u8)
                ==> is_digit(#[trigger] line@[i]) || blank(line@[i]),
        result is Ok ==> forall|i: int|
            0 < i < line@.len() && (forall|j: int| 0 <= j <= i ==> #[trigger] line@[j] != ';' as u8)
                && blank(line@[i - 1]) ==> blank(#[trigger] line@[i]),
{
    let split = ascii::position(line@, SEMICOLON) as int;
    let front = line@.take(split);
    let digits = decode::size_digits(line@);
    ascii::position_is_first(line@, SEMICOLON);
    trailing_is_a_prefix(front);
    if result is Ok {
        assert(digits.len() > 0);
        assert forall|i: int| 0 <= i < digits.len() implies is_digit(#[trigger] digits[i]) by {
            assert(ascii::is_hex(digits[i]));
            digit_is_known(digits[i]);
        }
        assert(front[0] == digits[0] && line@[0] == front[0]);
        assert(is_digit(digits[0]));
        assert forall|i: int|
            0 <= i < line@.len() && (forall|j: int|
                0 <= j <= i ==> #[trigger] line@[j] != ';' as u8) implies is_digit(
            #[trigger] line@[i],
        ) || blank(line@[i]) by {
            if i >= split {
                assert(line@[split] != ';' as u8);
            }
            assert(front[i] == line@[i]);
            if i < digits.len() {
                assert(is_digit(digits[i]));
            }
        }
        assert forall|i: int|
            0 < i < line@.len() && (forall|j: int|
                0 <= j <= i ==> #[trigger] line@[j] != ';' as u8) && blank(line@[i - 1]) implies blank(
            #[trigger] line@[i],
        ) by {
            if i >= split {
                assert(line@[split] != ';' as u8);
            }
            assert(front[i] == line@[i]);
            assert(front[i - 1] == line@[i - 1]);
            if i - 1 < digits.len() {
                assert(is_digit(digits[i - 1]));
                digit_is_known(digits[i - 1]);
            }
        }
    }
}

/// A chunk line written in digits of either case is found in front of whatever
/// follows it, and announces the length that it was made for.
pub proof fn line_of_any_case_is_read_back(
    digits: Seq<u8>,
    length: nat,
    rest: Seq<u8>,
    limit: nat,
)
    requires
        0 < length <= u64::MAX,
        same_letters(digits, encode::hex_digits(length)),
        digits.len() + 2 <= limit,
    ensures
        decode::chunk_line(digits + seq!['\r' as u8, '\n' as u8] + rest, 0, limit) == Ok::<
            _,
            DecodeError,
        >(Some((length as u64, digits.len() + 2))),
{
    let plain = encode::hex_digits(length);
    let input = digits + seq!['\r' as u8, '\n' as u8] + rest;
    codec_laws::digits_stand_for_number(length);
    value_ignores_case(digits, plain);
    assert forall|i: int| 0 <= i < digits.len() implies is_digit(#[trigger] digits[i]) by {
        assert(ascii::is_hex(digits[i]));
        digit_is_known(digits[i]);
    }
    plain_line_is_all_digits(digits);
    assert forall|i: int| 0 <= i <= digits.len() implies !decode::line_stops(input, i) by {
        if i < digits.len() {
            assert(input[i] == digits[i]);
            digit_is_known(digits[i]);
        }
        if i > 0 {
            assert(input[i - 1] == digits[i - 1]);
            digit_is_known(digits[i - 1]);
        }
    }
    assert(decode::line_stops(input, (digits.len() + 1) as int));
    decode_laws::line_stop_is(input, 0, digits.len() + 1);
    assert(input.take(digits.len() as int) =~= digits);
}

/// The payload of a chunk comes right behind its line, whatever the case of the
/// digits in it: as much of it as is at hand, and no more than the line announces.
pub proof fn chunk_of_any_case_is_found(
    decoder: &mut BodyDecoder,
    input: &[u8],
    eof: bool,
    result: Result<DecodeOutcome, DecodeError>,
    digits: Seq<u8>,
    length: nat,
    rest: Seq<u8>,
)
    requires
        call_ensures(BodyDecoder::decode, (decoder, input, eof), result),
        old(decoder).position() == decode::initial(BodyMode::Chunked),
        input@ == digits + seq!['\r' as u8, '\n' as u8] + rest,
        0 < length <= u64::MAX,
        same_letters(digits, encode::hex_digits(length)),
        digits.len() + 2 <= old(decoder).bounds().max_chunk_line_bytes,
        rest.len() > 0,
    ensures
        result matches Ok(DecodeOutcome::Data { payload, consumed }) && payload.start
            == digits.len() + 2 && payload.end == consumed && consumed == digits.len() + 2 + (
        if rest.len() < length {
            rest.len()
        } else {
            length
        }),
{
    let whole = digits + seq!['\r' as u8, '\n' as u8] + rest;
    line_of_any_case_is_read_back(
        digits,
        length,
        rest,
        old(decoder).bounds().max_chunk_line_bytes as nat,
    );
    assert(input@.skip(0) =~= whole);
}

/// A body of a known length is cut out of the input: its bytes are the first ones,
/// as many as the length says, and what follows them is left. Where the input ends
/// before it does, the body is refused and never ended.
pub proof fn fixed_body_is_cut_out(length: u64, limits: DecodeLimits, input: Seq<u8>, eof: bool)
    ensures
        decode_laws::run(decode::initial(BodyMode::Fixed(length)), limits, input, eof) == (
        if length <= input.len() {
            Run {
                data: input.take(length as int),
                used: length as nat,
                end: RunEnd::Finished { trailers: None },
            }
        } else if eof {
            Run {
                data: input,
                used: 0,
                end: RunEnd::Failed { error: DecodeError::UnexpectedEof },
            }
        } else {
            Run {
                data: input,
                used: input.len(),
                end: RunEnd::Pending {
                    state: decode::initial(BodyMode::Fixed((length - input.len()) as u64)),
                },
            }
        }),
    decreases input.len(),
{
    reveal(decode_laws::taken);
    if length == 0 {
        assert(input.take(0) =~= Seq::empty());
    } else if input.len() > 0 {
        let count = if input.len() < length {
            input.len()
        } else {
            length as nat
        };
        fixed_body_is_cut_out((length - count) as u64, limits, input.skip(count as int), eof);
        let rest = decode_laws::run(
            decode::initial(BodyMode::Fixed((length - count) as u64)),
            limits,
            input.skip(count as int),
            eof,
        );
        assert(input.subrange(0, count as int) + rest.data =~= input.take(count as int));
        assert(input.take(input.len() as int) =~= input);
    } else {
        assert(input =~= Seq::empty());
    }
}

/// A body that ends with the connection is all of the input, and has ended exactly
/// where the connection has.
pub proof fn open_body_is_all_input(limits: DecodeLimits, input: Seq<u8>, eof: bool)
    ensures
        decode_laws::run(decode::initial(BodyMode::UntilEof), limits, input, eof) == (Run {
            data: input,
            used: input.len(),
            end: if eof {
                RunEnd::Finished { trailers: None }
            } else {
                RunEnd::Pending { state: decode::initial(BodyMode::UntilEof) }
            },
        }),
{
    reveal(decode_laws::taken);
    reveal_with_fuel(decode_laws::run, 3);
    if input.len() > 0 {
        assert(input.skip(input.len() as int) =~= Seq::empty());
        assert(input.subrange(0, input.len() as int) =~= input);
        assert(input + Seq::<u8>::empty() =~= input);
    } else {
        assert(input =~= Seq::empty());
    }
}

/// A message without a body uses nothing of the input.
pub proof fn absent_body_uses_nothing(limits: DecodeLimits, input: Seq<u8>, eof: bool)
    ensures
        decode_laws::run(decode::initial(BodyMode::Empty), limits, input, eof) == (Run {
            data: Seq::empty(),
            used: 0,
            end: RunEnd::Finished { trailers: None },
        }),
{
    reveal(decode_laws::taken);
}

spec fn ends_properly(step: decode::Step, eof: bool) -> bool {
    &&& !(step.outcome matches Ok(decode::OutcomeView::End { .. }))
    &&& eof ==> !(step.outcome matches Ok(decode::OutcomeView::NeedMore { .. }))
    &&& step.state == DecoderState::Done <==> (step.outcome matches Ok(
        decode::OutcomeView::Trailers { .. },
    ))
    &&& step.outcome matches Err(error) ==> step.state == DecoderState::Failed(error)
    &&& step.outcome == Err::<decode::OutcomeView, _>(DecodeError::InvalidChunkTerminator) ==> false
}

proof fn trailers_end_properly(
    limits: DecodeLimits,
    scanned: nat,
    input: Seq<u8>,
    cursor: nat,
    eof: bool,
)
    ensures
        ends_properly(decode::trailers_step(limits, scanned, input, cursor, eof), eof),
{
}

proof fn sizes_end_properly(
    limits: DecodeLimits,
    scanned: nat,
    input: Seq<u8>,
    cursor: nat,
    eof: bool,
)
    ensures
        ends_properly(decode::size_step(limits, scanned, input, cursor, eof), eof),
{
    let available = input.skip(cursor as int);
    let line = decode::chunk_line(available, scanned, limits.max_chunk_line_bytes as nat);
    if let Ok(Some((size, length))) = line {
        trailers_end_properly(limits, 0, input, cursor + length, eof);
    }
}

/// A chunked body ends with its last line and its trailers alone: a connection that
/// ends before is never taken for the end, and neither is a payload.
pub proof fn chunked_body_ends_with_trailers(
    decoder: &mut BodyDecoder,
    input: &[u8],
    eof: bool,
    result: Result<DecodeOutcome, DecodeError>,
)
    requires
        call_ensures(BodyDecoder::decode, (decoder, input, eof), result),
        old(decoder).position() is Chunked,
    ensures
        !(result matches Ok(DecodeOutcome::End { .. })),
        eof ==> !(result matches Ok(DecodeOutcome::NeedMore { .. })),
        final(decoder).position() == DecoderState::Done <==> (result matches Ok(
            DecodeOutcome::Trailers { .. },
        )),
        result matches Err(error) ==> final(decoder).position() == DecoderState::Failed(error),
{
    let before = old(decoder).position();
    let bounds = old(decoder).bounds();
    let state = before->Chunked_0;
    let step = decode::chunk_step(state, bounds, input@, 0, eof);
    match state {
        ChunkState::Size { scanned } => {
            sizes_end_properly(bounds, scanned as nat, input@, 0, eof);
        },
        ChunkState::Data { .. } => {},
        ChunkState::DataCrlf => {
            sizes_end_properly(bounds, 0, input@, 2, eof);
        },
        ChunkState::Trailers { scanned } => {
            trailers_end_properly(bounds, scanned as nat, input@, 0, eof);
        },
    }
    assert(step == decode::step(before, bounds, input@, eof));
    assert(step.allows(final(decoder).position(), result));
}

/// The payload of a chunk is followed by a line end, and by nothing else.
pub proof fn payload_is_followed_by_line_end(
    decoder: &mut BodyDecoder,
    input: &[u8],
    eof: bool,
    result: Result<DecodeOutcome, DecodeError>,
)
    requires
        call_ensures(BodyDecoder::decode, (decoder, input, eof), result),
        old(decoder).position() == DecoderState::Chunked(ChunkState::DataCrlf),
    ensures
        input@.len() > 0 && input@[0] != '\r' as u8 ==> result == Err::<DecodeOutcome, _>(
            DecodeError::InvalidChunkTerminator,
        ),
        input@.len() > 1 && input@[1] != '\n' as u8 ==> result == Err::<DecodeOutcome, _>(
            DecodeError::InvalidChunkTerminator,
        ),
        input@.len() < 2 && (input@.len() > 0 ==> input@[0] == '\r' as u8) ==> if eof {
            result == Err::<DecodeOutcome, _>(DecodeError::UnexpectedEof)
        } else {
            result matches Ok(DecodeOutcome::NeedMore { consumed }) && consumed == 0
        },
        result == Err::<DecodeOutcome, _>(DecodeError::InvalidChunkTerminator) ==> input@.len() > 0
            && (input@[0] != '\r' as u8 || (input@.len() > 1 && input@[1] != '\n' as u8)),
{
    assert(input@.skip(0) =~= input@);
    sizes_end_properly(old(decoder).bounds(), 0, input@, 2, eof);
}

/// A decoder starts in front of the body that its message has, with nothing read of it,
/// and has come to the end where there is nothing more to look for.
pub proof fn decoders_start_as_framed(
    mode: BodyMode,
    limits: DecodeLimits,
    made: BodyDecoder,
    plain: BodyDecoder,
    decoder: BodyDecoder,
    state: DecoderState,
    read: bool,
    complete: bool,
    from_start: bool,
)
    requires
        call_ensures(BodyDecoder::with_limits, (mode, limits), made),
        call_ensures(BodyDecoder::new, (mode,), plain),
        call_ensures(BodyDecoder::state, (&decoder,), state),
        call_ensures(BodyDecoder::has_read_trailers, (&decoder,), read),
        call_ensures(BodyDecoder::is_complete, (&decoder,), complete),
        call_ensures(BodyDecoder::is_complete, (&made,), from_start),
    ensures
        made.bounds() == limits,
        !made.read_trailers() && !plain.read_trailers(),
        made.position() == plain.position(),
        mode matches BodyMode::Fixed(length) ==> made.position() == (DecoderState::Fixed {
            remaining: length,
        }),
        mode == BodyMode::UntilEof ==> made.position() == DecoderState::UntilEof,
        mode == BodyMode::Chunked ==> made.position() == DecoderState::Chunked(
            ChunkState::Size { scanned: 0 },
        ),
        from_start <==> mode == BodyMode::Empty || mode == BodyMode::Fixed(0),
        state == decoder.position(),
        read == decoder.read_trailers(),
        complete <==> state == DecoderState::Empty || state == DecoderState::Done || state == (
        DecoderState::Fixed { remaining: 0 }),
{
}

/// A chunk line that has not ended is waited for as long as it fits its limit; one that
/// does not fit is refused, and so is a body that ends within it.
pub proof fn unended_lines_are_bounded(
    decoder: &mut BodyDecoder,
    input: &[u8],
    eof: bool,
    result: Result<DecodeOutcome, DecodeError>,
)
    requires
        call_ensures(BodyDecoder::decode, (decoder, input, eof), result),
        old(decoder).position() == DecoderState::Chunked(ChunkState::Size { scanned: 0 }),
        forall|i: int|
            0 <= i < input@.len() ==> #[trigger] input@[i] != '\r' as u8 && input@[i] != '\n' as u8,
    ensures
        input@.len() > old(decoder).bounds().max_chunk_line_bytes ==> result == Err::<
            DecodeOutcome,
            _,
        >(DecodeError::Limit(DecodeLimit::ChunkLineBytes)),
        input@.len() <= old(decoder).bounds().max_chunk_line_bytes && eof ==> result == Err::<
            DecodeOutcome,
            _,
        >(DecodeError::UnexpectedEof),
        input@.len() <= old(decoder).bounds().max_chunk_line_bytes && !eof ==> (
        result matches Ok(DecodeOutcome::NeedMore { consumed }) && consumed == 0),
{
    assert(input@.skip(0) =~= input@);
    decode_laws::line_stop_is(input@, 0, input@.len());
}

/// A chunk line that ends is refused where it is longer than its limit, and where it ends
/// with a line feed alone.
pub proof fn ended_lines_are_bounded(
    decoder: &mut BodyDecoder,
    text: Seq<u8>,
    rest: Seq<u8>,
    returned: bool,
    input: &[u8],
    eof: bool,
    result: Result<DecodeOutcome, DecodeError>,
)
    requires
        call_ensures(BodyDecoder::decode, (decoder, input, eof), result),
        old(decoder).position() == DecoderState::Chunked(ChunkState::Size { scanned: 0 }),
        forall|i: int|
            0 <= i < text.len() ==> #[trigger] text[i] != '\r' as u8 && text[i] != '\n' as u8,
        input@ == text + (if returned {
            seq!['\r' as u8, '\n' as u8]
        } else {
            seq!['\n' as u8]
        }) + rest,
    ensures
        !returned ==> result == Err::<DecodeOutcome, _>(DecodeError::InvalidChunkSize),
        returned && text.len() + 2 > old(decoder).bounds().max_chunk_line_bytes ==> result == Err::<
            DecodeOutcome,
            _,
        >(DecodeError::Limit(DecodeLimit::ChunkLineBytes)),
{
    let limits = old(decoder).bounds();
    ended_line_is_refused(limits, text, rest, returned, input@);
    line_error_is_final(limits, input@, eof);
}

proof fn line_error_is_final(limits: DecodeLimits, input: Seq<u8>, eof: bool)
    ensures
        decode::chunk_line(input, 0, limits.max_chunk_line_bytes as nat) matches Err(error)
            ==> decode::step(
            DecoderState::Chunked(ChunkState::Size { scanned: 0 }),
            limits,
            input,
            eof,
        ) == decode::failed(error),
{
    assert(input.skip(0) =~= input);
}

proof fn ended_line_is_refused(
    limits: DecodeLimits,
    text: Seq<u8>,
    rest: Seq<u8>,
    returned: bool,
    whole: Seq<u8>,
)
    requires
        forall|i: int| 0 <= i < text.len() ==> #[trigger] text[i] != CR && text[i] != LF,
        whole == text + (if returned {
            seq![CR, LF]
        } else {
            seq![LF]
        }) + rest,
    ensures
        !returned ==> decode::chunk_line(whole, 0, limits.max_chunk_line_bytes as nat) == Err::<
            Option<(u64, nat)>,
            _,
        >(DecodeError::InvalidChunkSize),
        returned && text.len() + 2 > limits.max_chunk_line_bytes ==> decode::chunk_line(
            whole,
            0,
            limits.max_chunk_line_bytes as nat,
        ) == Err::<Option<(u64, nat)>, _>(DecodeError::Limit(DecodeLimit::ChunkLineBytes)),
{
    let stop = if returned {
        text.len() + 1
    } else {
        text.len()
    };
    assert forall|i: int| 0 <= i < text.len() implies whole[i] != CR && whole[i] != LF by {
        assert(whole[i] == text[i]);
    }
    assert(whole[stop as int] == LF);
    if returned {
        assert(whole[text.len() as int] == CR);
    }
    decode_laws::line_stop_is(whole, 0, stop);
}

/// A trailer section that has not ended is waited for as long as it fits its limit; one
/// that does not fit is refused, and so is a body that ends within it.
pub proof fn unended_sections_are_bounded(
    decoder: &mut BodyDecoder,
    input: &[u8],
    eof: bool,
    result: Result<DecodeOutcome, DecodeError>,
)
    requires
        call_ensures(BodyDecoder::decode, (decoder, input, eof), result),
        old(decoder).position() == DecoderState::Chunked(ChunkState::Trailers { scanned: 0 }),
        forall|i: int| 0 <= i < input@.len() ==> #[trigger] input@[i] != '\n' as u8,
    ensures
        input@.len() > old(decoder).bounds().max_trailer_bytes ==> result == Err::<
            DecodeOutcome,
            _,
        >(DecodeError::Limit(DecodeLimit::TrailerBytes)),
        input@.len() <= old(decoder).bounds().max_trailer_bytes && eof ==> result == Err::<
            DecodeOutcome,
            _,
        >(DecodeError::UnexpectedEof),
        input@.len() <= old(decoder).bounds().max_trailer_bytes && !eof ==> (
        result matches Ok(DecodeOutcome::NeedMore { consumed }) && consumed == 0),
{
    assert(input@.skip(0) =~= input@);
    let bound = decode::at_most(input@.len(), old(decoder).bounds().max_trailer_bytes as nat);
    decode_laws::empty_line_is(input@, 0, bound, bound);
}

/// A body that failed stays failed, and one that is done stays done.
pub proof fn verdicts_stand(
    decoder: &mut BodyDecoder,
    input: &[u8],
    eof: bool,
    result: Result<DecodeOutcome, DecodeError>,
)
    requires
        call_ensures(BodyDecoder::decode, (decoder, input, eof), result),
        old(decoder).position() is Failed || old(decoder).position() == DecoderState::Done,
    ensures
        old(decoder).position() matches DecoderState::Failed(error) ==> result == Err::<
            DecodeOutcome,
            _,
        >(error) && final(decoder).position() == old(decoder).position(),
        old(decoder).position() == DecoderState::Done ==> (result matches Ok(DecodeOutcome::End {
            consumed,
        }) && consumed == 0) && final(decoder).position() == DecoderState::Done,
        final(decoder).bounds() == old(decoder).bounds(),
{
}

/// A trailer section is refused for too many fields, for lines that are no fields, or for
/// a field that comes too late, each as what it is; otherwise it gives its fields.
pub proof fn trailer_sections_are_read(
    decoder: &mut BodyDecoder,
    input: &[u8],
    eof: bool,
    result: Result<DecodeOutcome, DecodeError>,
    length: nat,
    parsed: Result<Option<(nat, Seq<(Seq<u8>, Seq<u8>)>)>, wire::SyntaxError>,
)
    requires
        call_ensures(BodyDecoder::decode, (decoder, input, eof), result),
        old(decoder).position() == DecoderState::Chunked(ChunkState::Trailers { scanned: 0 }),
        decode::trailer_section(input@, 0, old(decoder).bounds().max_trailer_bytes as nat) == Ok::<
            Option<nat>,
            DecodeError,
        >(Some(length)),
        parsed == wire::parsed_fields(
            input@.take(length as int),
            if old(decoder).bounds().max_trailers < length {
                old(decoder).bounds().max_trailers as nat
            } else {
                length
            },
        ),
        length <= input@.len(),
    ensures
        parsed == Err::<Option<(nat, Seq<(Seq<u8>, Seq<u8>)>)>, _>(
            wire::SyntaxError::TooManyHeaders,
        ) ==> result == Err::<DecodeOutcome, _>(DecodeError::Limit(DecodeLimit::Trailers)),
        parsed matches Err(fault) ==> (fault != wire::SyntaxError::TooManyHeaders ==> result == Err::<
            DecodeOutcome,
            _,
        >(DecodeError::InvalidTrailer)),
        (parsed matches Ok(None)) ==> result == Err::<DecodeOutcome, _>(
            DecodeError::InvalidTrailer,
        ),
        parsed matches Ok(Some((consumed, lines))) ==> (!head::crowded(lines) ==> match (
            head::owned_fields(lines)
        ) {
            Ok(held) => if decode::trailers_allowed(held) {
                result matches Ok(DecodeOutcome::Trailers { trailers, consumed: used })
                    && fields::entries(trailers) == held && used == consumed
            } else {
                result == Err::<DecodeOutcome, _>(DecodeError::ForbiddenTrailer)
            },
            Err(error) => if error is Limit {
                result == Err::<DecodeOutcome, _>(DecodeError::Limit(DecodeLimit::TrailerMap))
            } else {
                result == Err::<DecodeOutcome, _>(DecodeError::InvalidTrailer)
            },
        }),
{
    assert(input@.skip(0) =~= input@);
}

} // verus!
