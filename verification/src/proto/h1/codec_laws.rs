//! What reading gives back of what was written.

use crate::ascii::{self, CR, LF, SEMICOLON, ZERO};
use crate::outside::fields;
use crate::outside::start_line;
use crate::outside::wire;
use crate::proto::h1::decode::{self, ChunkState, DecodeError, DecodeLimits, DecoderState};
use crate::proto::h1::decode_laws;
use crate::proto::h1::encode;
use crate::proto::h1::head::{
    self, HeadError, HeadLimits, RequestHead, RequestView, ResponseHead, ResponseView,
};
use crate::message::Version;
use crate::proto::h1::encode::BodyMetadata;
use crate::proto::h1::syntax;
use crate::proto::h1::validate;
use crate::proto::h1::values;
use crate::proto::h1::BodyMode;
use vstd::prelude::*;

verus! {

/// The digits of a number are hexadecimal digits, and stand for the number.
pub proof fn digits_stand_for_number(value: nat)
    ensures
        decode::all_hex(encode::hex_digits(value)),
        decode::hex_value(encode::hex_digits(value)) == value,
        value > 0 ==> encode::hex_digits(value).len() > 0,
    decreases value,
{
    if value > 0 {
        digits_stand_for_number(value / 16);
        let digits = encode::hex_digits(value);
        let byte = encode::hex_byte(value % 16);
        assert(digits.drop_last() =~= encode::hex_digits(value / 16));
        assert(digits.last() == byte);
        assert(decode::hex_digit(byte) == value % 16);
        assert(ascii::is_hex(byte));
    }
}

/// A chunk line announces the length that it was made for.
pub proof fn announced_size_is_read_back(length: nat)
    requires
        0 < length <= u64::MAX,
    ensures
        decode::chunk_size(encode::hex_digits(length)) == Ok::<u64, DecodeError>(length as u64),
{
    let digits = encode::hex_digits(length);
    digits_stand_for_number(length);
    assert forall|i: int| 0 <= i < digits.len() implies digits[i] != SEMICOLON by {
        assert(ascii::is_hex(digits[i]));
    }
    ascii::position_is_unique(digits, SEMICOLON, digits.len());
    assert(digits.take(digits.len() as int) =~= digits);
    assert(ascii::is_hex(digits.last()));
    assert(decode::size_digits(digits) == digits);
    assert(digits.skip(digits.len() as int) =~= Seq::empty());
}

/// A chunk line that fits the limit is found in front of whatever follows it.
pub proof fn chunk_line_is_read_back(length: nat, rest: Seq<u8>, limit: nat)
    requires
        0 < length <= u64::MAX,
        encode::chunk_line_text(length).len() <= limit,
    ensures
        decode::chunk_line(encode::chunk_line_text(length) + rest, 0, limit) == Ok::<
            _,
            DecodeError,
        >(Some((length as u64, encode::chunk_line_text(length).len()))),
{
    let digits = encode::hex_digits(length);
    let input = encode::chunk_line_text(length) + rest;
    digits_stand_for_number(length);
    announced_size_is_read_back(length);
    assert forall|i: int| 0 <= i <= digits.len() implies !decode::line_stops(input, i) by {
        if i < digits.len() {
            assert(ascii::is_hex(digits[i]));
            assert(input[i] == digits[i]);
        }
        if i > 0 {
            assert(ascii::is_hex(digits[i - 1]));
            assert(input[i - 1] == digits[i - 1]);
        }
    }
    assert(decode::line_stops(input, (digits.len() + 1) as int));
    decode_laws::line_stop_is(input, 0, digits.len() + 1);
    assert(input.take(digits.len() as int) =~= digits);
}

/// The line that ends the payload is found in front of whatever follows it.
pub proof fn last_line_is_read_back(rest: Seq<u8>, limit: nat)
    requires
        limit >= 3,
    ensures
        decode::chunk_line(decode::last_line() + rest, 0, limit) == Ok::<_, DecodeError>(
            Some((0u64, 3nat)),
        ),
{
    let input = decode::last_line() + rest;
    let digits = seq![ZERO];
    assert(!decode::line_stops(input, 0));
    assert(!decode::line_stops(input, 1));
    assert(decode::line_stops(input, 2));
    decode_laws::line_stop_is(input, 0, 2);
    assert(input.take(1) =~= digits);
    ascii::position_is_unique(digits, SEMICOLON, 1);
    assert(digits.take(1) =~= digits);
    assert(digits.skip(1) =~= Seq::empty());
    assert(digits.drop_last() =~= Seq::empty());
    assert(decode::hex_value(digits.drop_last()) == 0);
    assert(digits.last() == ZERO);
    assert(decode::size_digits(digits) == digits);
    assert(decode::hex_value(digits) == 0);
}

/// Every field line takes more than one byte.
pub proof fn block_is_longer_than_lines(lines: Seq<(Seq<u8>, Seq<u8>)>)
    ensures
        lines.len() <= wire::field_block(lines).len(),
    decreases lines.len(),
{
    if lines.len() > 0 {
        block_is_longer_than_lines(lines.skip(1));
    }
}

/// A payload with what goes around it in a chunked body; nothing for an empty
/// payload.
pub open spec fn chunk(payload: Seq<u8>) -> Seq<u8> {
    if payload.len() == 0 {
        Seq::empty()
    } else {
        encode::chunk_line_text(payload.len()) + payload + seq![CR, LF]
    }
}

/// The chunks of several payloads.
pub open spec fn chunks(payloads: Seq<Seq<u8>>) -> Seq<u8>
    decreases payloads.len(),
{
    if payloads.len() == 0 {
        Seq::empty()
    } else {
        chunk(payloads[0]) + chunks(payloads.skip(1))
    }
}

/// The state in front of a chunk line.
pub open spec fn at_chunk() -> DecoderState {
    DecoderState::Chunked(ChunkState::Size { scanned: 0 })
}

/// A chunk gives back its payload, and decoding goes on behind it.
pub proof fn chunk_is_read_back(
    payload: Seq<u8>,
    limits: DecodeLimits,
    rest: Seq<u8>,
    eof: bool,
)
    requires
        payload.len() <= u64::MAX,
        payload.len() > 0 ==> encode::chunk_line_text(payload.len()).len()
            <= limits.max_chunk_line_bytes,
    ensures
        decode_laws::run(at_chunk(), limits, chunk(payload) + rest, eof) == decode_laws::run(
            at_chunk(),
            limits,
            rest,
            eof,
        ).after(payload, chunk(payload).len()),
{
    let last = decode_laws::run(at_chunk(), limits, rest, eof);
    if payload.len() == 0 {
        assert(chunk(payload) + rest =~= rest);
        assert(payload + last.data =~= last.data);
    } else {
        let line = encode::chunk_line_text(payload.len());
        let size = payload.len() as u64;
        let ending = seq![CR, LF] + rest;
        assert(chunk(payload) + rest =~= line + (payload + ending));
        chunk_line_is_read_back(
            payload.len(),
            payload + ending,
            limits.max_chunk_line_bytes as nat,
        );
        decode_laws::run_past_line(
            0,
            limits,
            line + (payload + ending),
            eof,
            size,
            line.len(),
        );
        assert((line + (payload + ending)).skip(line.len() as int) =~= payload + ending);
        decode_laws::run_splits_data(size, limits, payload, ending, eof);
        decode_laws::run_past_crlf(limits, ending, eof);
        assert(ending.skip(2) =~= rest);
        let none = Seq::<u8>::empty();
        assert(none + (payload + (none + last.data)) =~= payload + last.data);
    }
}

/// What a chunked body carries is what was put in, however it was cut into
/// chunks, and decoding goes on behind the last of them.
pub proof fn payload_is_read_back(
    payloads: Seq<Seq<u8>>,
    limits: DecodeLimits,
    rest: Seq<u8>,
    eof: bool,
)
    requires
        forall|i: int|
            0 <= i < payloads.len() ==> (#[trigger] payloads[i]).len() <= u64::MAX && (
            payloads[i].len() > 0 ==> encode::chunk_line_text(payloads[i].len()).len()
                <= limits.max_chunk_line_bytes),
    ensures
        decode_laws::run(at_chunk(), limits, chunks(payloads) + rest, eof) == decode_laws::run(
            at_chunk(),
            limits,
            rest,
            eof,
        ).after(decode_laws::joined(payloads), chunks(payloads).len()),
    decreases payloads.len(),
{
    let last = decode_laws::run(at_chunk(), limits, rest, eof);
    if payloads.len() == 0 {
        assert(chunks(payloads) + rest =~= rest);
        assert(decode_laws::joined(payloads) + last.data =~= last.data);
    } else {
        let others = payloads.skip(1);
        payload_is_read_back(others, limits, rest, eof);
        chunk_is_read_back(payloads[0], limits, chunks(others) + rest, eof);
        assert(chunks(payloads) + rest =~= chunk(payloads[0]) + (chunks(others) + rest));
        assert(payloads[0] + (decode_laws::joined(others) + last.data) =~= decode_laws::joined(payloads) + last.data);
    }
}

/// Every line feed of a block ends a line that is not empty.
spec fn lines_are_full(block: Seq<u8>) -> bool {
    &&& block.len() > 0 ==> block.last() == LF
    &&& forall|i: int|
        0 <= i < block.len() && #[trigger] block[i] == LF ==> i >= 2 && block[i - 1] == CR
            && block[i - 2] != LF
}

proof fn field_lines_are_full(lines: Seq<(Seq<u8>, Seq<u8>)>)
    requires
        wire::plain_fields(lines),
    ensures
        lines_are_full(wire::field_block(lines)),
    decreases lines.len(),
{
    if lines.len() > 0 {
        let others = lines.skip(1);
        assert forall|i: int| 0 <= i < others.len() implies wire::plain_field(
            #[trigger] others[i],
        ) by {
            assert(others[i] == lines[i + 1]);
        }
        field_lines_are_full(others);
        let (name, value) = lines[0];
        let line = wire::field_line(name, value);
        let tail = wire::field_block(others);
        let block = line + tail;
        assert(wire::plain_field(lines[0]));
        let end = line.len() - 1;
        assert(line[end] == LF && line[end - 1] == CR);
        assert forall|i: int| 0 <= i < end implies line[i] != LF by {
            if i < name.len() {
                assert(line[i] == name[i]);
                assert(syntax::token_byte(name[i]));
            } else if name.len() + 2 <= i < name.len() + 2 + value.len() {
                assert(line[i] == value[i - name.len() - 2]);
                assert(fields::value_byte(value[i - name.len() - 2]));
            }
        }
        assert forall|i: int| 0 <= i < block.len() && #[trigger] block[i] == LF implies i >= 2
            && block[i - 1] == CR && block[i - 2] != LF by {
            if i < line.len() {
                assert(line[i] == LF);
                assert(i == end);
            } else {
                assert(tail[i - line.len()] == LF);
                assert(tail[i - line.len() - 1] == CR);
                assert(tail[i - line.len() - 2] != LF);
            }
        }
    }
}

/// A trailer section of plain field lines ends with its empty line.
pub proof fn section_is_found(lines: Seq<(Seq<u8>, Seq<u8>)>, rest: Seq<u8>, limit: nat)
    requires
        wire::plain_fields(lines),
        wire::field_block(lines).len() + 2 <= limit,
    ensures
        decode::trailer_section(wire::field_block(lines) + seq![CR, LF] + rest, 0, limit) == Ok::<
            _,
            DecodeError,
        >(Some(wire::field_block(lines).len() + 2)),
{
    let block = wire::field_block(lines);
    let input = block + seq![CR, LF] + rest;
    let bound = decode::at_most(input.len(), limit);
    field_lines_are_full(lines);
    assert forall|i: int| 0 <= i <= block.len() implies !decode::ends_empty_line(input, i) by {
        if i < block.len() {
            assert(input[i] == block[i]);
            if block[i] == LF {
                assert(input[i - 1] == block[i - 1]);
                assert(input[i - 2] == block[i - 2]);
            }
        }
    }
    if block.len() > 0 {
        assert(input[block.len() - 1] == block.last());
    }
    assert(decode::ends_empty_line(input, (block.len() + 1) as int));
    decode_laws::empty_line_is(input, 0, bound, block.len() + 1);
}

/// Distinct names in small letters, each with a value: what the fields of a map
/// are.
pub open spec fn proper_fields(held: Seq<(Seq<u8>, Seq<Seq<u8>>)>) -> bool {
    &&& forall|i: int|
        0 <= i < held.len() ==> (#[trigger] held[i]).1.len() > 0 && ascii::lowered(held[i].0)
            == held[i].0
    &&& forall|i: int, j: int|
        0 <= i < j < held.len() ==> (#[trigger] held[i]).0 != (#[trigger] held[j]).0
}

proof fn appended_to_last(
    held: Seq<(Seq<u8>, Seq<Seq<u8>>)>,
    name: Seq<u8>,
    values: Seq<Seq<u8>>,
    value: Seq<u8>,
)
    requires
        forall|i: int| 0 <= i < held.len() ==> (#[trigger] held[i]).0 != name,
    ensures
        fields::appended(held, name, value) == held.push((name, seq![value])),
        fields::appended(held.push((name, values)), name, value) == held.push(
            (name, values.push(value)),
        ),
    decreases held.len(),
{
    if held.len() == 0 {
        assert(fields::appended(held, name, value) =~= held.push((name, seq![value])));
        let one = held.push((name, values));
        assert(one[0].0 == name);
        assert(one.skip(1) =~= Seq::empty());
        assert(fields::appended(one, name, value) =~= held.push((name, values.push(value))));
    } else {
        let others = held.skip(1);
        assert forall|i: int| 0 <= i < others.len() implies (#[trigger] others[i]).0 != name by {
            assert(others[i] == held[i + 1]);
        }
        appended_to_last(others, name, values, value);
        let more = held.push((name, values));
        assert(more[0] == held[0]);
        assert(more.skip(1) =~= others.push((name, values)));
        assert(fields::appended(held, name, value) =~= held.push((name, seq![value])));
        assert(fields::appended(more, name, value) =~= held.push((name, values.push(value))));
    }
}

/// The lines of one field are gathered behind the fields before it.
proof fn field_is_gathered(
    before: Seq<(Seq<u8>, Seq<u8>)>,
    held: Seq<(Seq<u8>, Seq<Seq<u8>>)>,
    name: Seq<u8>,
    values: Seq<Seq<u8>>,
)
    requires
        head::gathered(before) == held,
        values.len() > 0,
        ascii::lowered(name) == name,
        forall|i: int| 0 <= i < held.len() ==> (#[trigger] held[i]).0 != name,
    ensures
        head::gathered(before + Seq::new(values.len(), |i: int| (name, values[i]))) == held.push(
            (name, values),
        ),
    decreases values.len(),
{
    let added = Seq::new(values.len(), |i: int| (name, values[i]));
    let all = before + added;
    let fewer = values.drop_last();
    let shorter = before + Seq::new(fewer.len(), |i: int| (name, fewer[i]));
    assert(all.drop_last() =~= shorter);
    assert(all.last() == (name, values.last()));
    assert(fewer.push(values.last()) =~= values);
    if values.len() == 1 {
        assert(shorter =~= before);
        assert(values =~= seq![values.last()]);
        appended_to_last(held, name, fewer, values.last());
    } else {
        field_is_gathered(before, held, name, fewer);
        appended_to_last(held, name, fewer, values.last());
    }
}

proof fn lines_split(held: Seq<(Seq<u8>, Seq<Seq<u8>>)>)
    requires
        held.len() > 0,
    ensures
        fields::lines(held) == fields::lines(held.drop_last()) + Seq::new(
            held.last().1.len(),
            |i: int| (held.last().0, held.last().1[i]),
        ),
    decreases held.len(),
{
    let last = Seq::new(held.last().1.len(), |i: int| (held.last().0, held.last().1[i]));
    if held.len() == 1 {
        assert(held.skip(1) =~= Seq::empty());
        assert(held.drop_last() =~= Seq::empty());
        assert(fields::lines(held) =~= fields::lines(held.drop_last()) + last);
    } else {
        let others = held.skip(1);
        lines_split(others);
        assert(others.last() == held.last());
        assert(others.drop_last() =~= held.drop_last().skip(1));
        assert(held.drop_last()[0] == held[0]);
        assert(fields::lines(held) =~= fields::lines(held.drop_last()) + last);
    }
}

/// The lines of a map's fields add up to those fields again.
pub proof fn fields_are_gathered_back(held: Seq<(Seq<u8>, Seq<Seq<u8>>)>)
    requires
        proper_fields(held),
    ensures
        head::gathered(fields::lines(held)) == held,
    decreases held.len(),
{
    if held.len() > 0 {
        let before = held.drop_last();
        assert forall|i: int| 0 <= i < before.len() implies (#[trigger] before[i]).1.len() > 0
            && ascii::lowered(before[i].0) == before[i].0 by {
            assert(before[i] == held[i]);
        }
        fields_are_gathered_back(before);
        lines_split(held);
        let last = held.last();
        assert(held[held.len() - 1] == last);
        assert forall|i: int| 0 <= i < before.len() implies (#[trigger] before[i]).0 != last.0 by {
            assert(before[i] == held[i]);
        }
        field_is_gathered(fields::lines(before), before, last.0, last.1);
        assert(before.push((last.0, last.1)) =~= held);
    }
}

/// An inserted field holds the one value, and the other fields keep theirs.
pub proof fn inserted_is_found(
    held: Seq<(Seq<u8>, Seq<Seq<u8>>)>,
    name: Seq<u8>,
    value: Seq<u8>,
    other: Seq<u8>,
)
    ensures
        fields::values_of(fields::inserted(held, name, value), name) == seq![value],
        other != name ==> fields::values_of(fields::inserted(held, name, value), other)
            == fields::values_of(held, other),
    decreases held.len(),
{
    let after = fields::inserted(held, name, value);
    reveal_with_fuel(fields::values_of, 2);
    if held.len() == 0 {
        assert(after[0] == (name, seq![value]));
        assert(after.skip(1) =~= Seq::empty());
    } else if held[0].0 == name {
        assert(after[0] == (name, seq![value]));
        assert(after.skip(1) =~= held.skip(1));
    } else {
        inserted_is_found(held.skip(1), name, value, other);
        assert(after[0] == held[0]);
        assert(after.skip(1) =~= fields::inserted(held.skip(1), name, value));
    }
}

/// A name that the fields do not hold has no values.
pub proof fn absent_name_has_no_values(held: Seq<(Seq<u8>, Seq<Seq<u8>>)>, name: Seq<u8>)
    requires
        !fields::has_name(held, name),
    ensures
        fields::values_of(held, name) == Seq::<Seq<u8>>::empty(),
    decreases held.len(),
{
    if held.len() > 0 {
        let others = held.skip(1);
        assert(held[0].0 != name);
        assert(!fields::has_name(others, name)) by {
            if fields::has_name(others, name) {
                let i = choose|i: int| 0 <= i < others.len() && (#[trigger] others[i]).0 == name;
                assert(held[i + 1].0 == name);
            }
        }
        absent_name_has_no_values(others, name);
    }
}

proof fn simple_member(value: Seq<u8>, index: nat)
    requires
        value.len() > 0,
        index <= value.len(),
        forall|i: int|
            0 <= i < value.len() ==> #[trigger] value[i] != ascii::COMMA && value[i]
                != ascii::QUOTE,
    ensures
        values::members_from(value, 0, index, false, false) == (seq![value], true),
    decreases value.len() - index,
{
    if index < value.len() {
        assert(value[index as int] != ascii::COMMA);
        simple_member(value, index + 1);
    } else {
        assert(value.subrange(0, value.len() as int) =~= value);
    }
}

proof fn simple_list(value: Seq<u8>)
    requires
        value.len() > 0,
        forall|i: int|
            0 <= i < value.len() ==> #[trigger] value[i] != ascii::COMMA && value[i]
                != ascii::QUOTE,
    ensures
        values::all_members(seq![value]) == (seq![value], true),
{
    simple_member(value, 0);
    reveal_with_fuel(values::all_members, 2);
    assert(seq![value].skip(1) =~= Seq::empty());
    assert(seq![value] + Seq::<Seq<u8>>::empty() =~= seq![value]);
}

/// A declared length is the length that a receiver reads.
pub proof fn declared_length_is_read_back(length: u64)
    ensures
        values::content_length(seq![encode::decimal_digits(length as nat)]) == Ok::<
            Option<u64>,
            head::HeadError,
        >(Some(length)),
{
    let digits = encode::decimal_digits(length as nat);
    encode::decimal_digits_stand_for_number(length as nat);
    assert forall|i: int| 0 <= i < digits.len() implies #[trigger] digits[i] != ascii::COMMA
        && digits[i] != ascii::QUOTE by {
        assert(ascii::is_digit(digits[i]));
    }
    simple_list(digits);
    assert(ascii::is_digit(digits[0]));
    assert(ascii::is_digit(digits.last()));
    syntax::trimmed_keeps(digits);
    let stated = seq![digits];
    assert(values::stated_length(digits) == Some(length));
    assert(stated.skip(1) =~= Seq::empty());
    reveal_with_fuel(values::agreed_length, 2);
}

/// A declared chunked body is what a receiver reads.
pub proof fn declared_chunks_are_read_back()
    ensures
        values::transfer_encoding(seq![encode::chunked_text()]) == Ok::<
            Option<values::TransferFraming>,
            head::HeadError,
        >(Some(values::TransferFraming::Chunked)),
{
    reveal_strlit("chunked");
    let chars = "chunked"@;
    let text = encode::chunked_text();
    assert forall|i: int| 0 <= i < chars.len() implies 0x61 <= #[trigger] chars[i] <= 0x7a by {
        assert(i == 0 || i == 1 || i == 2 || i == 3 || i == 4 || i == 5 || i == 6);
    }
    assert(vstd::utf8::is_ascii_chars(chars));
    vstd::utf8::is_ascii_chars_encode_utf8(chars);
    assert forall|i: int| 0 <= i < text.len() implies syntax::token_byte(#[trigger] text[i])
        && text[i] != ascii::COMMA && text[i] != ascii::QUOTE && text[i] != SEMICOLON by {
        assert(0x61 <= chars[i] <= 0x7a);
    }
    simple_list(text);
    assert(text.len() == 7);
    assert(syntax::token_byte(text[0]) && syntax::token_byte(text.last()));
    syntax::trimmed_keeps(text);
    ascii::position_is_unique(text, SEMICOLON, 7);
    assert(text.take(7) =~= text);
    assert(text.skip(7) =~= Seq::empty());
    assert(syntax::is_token_text(text));
    assert(values::coding_of(text) == (text, Seq::<u8>::empty()));
    assert(values::is_chunked_name(text));
    let listed = seq![text];
    assert(listed[0] == text);
    assert(listed.skip(1) =~= Seq::empty());
    reveal_with_fuel(values::codings_from, 2);
}

proof fn framing_names_differ()
    ensures
        fields::named("content-length") != fields::named("transfer-encoding"),
{
    reveal_strlit("content-length");
    reveal_strlit("transfer-encoding");
    reveal_with_fuel(fields::plain_from, 18);
    fields::plain_text("content-length"@);
    fields::plain_text("transfer-encoding"@);
    assert(fields::named("content-length").len() == 14);
    assert(fields::named("transfer-encoding").len() == 17);
}

/// What an outgoing request declares of its body is what a receiver makes of the
/// fields.
pub proof fn request_framing_is_understood(
    headers: Seq<(Seq<u8>, Seq<Seq<u8>>)>,
    version: Version,
    metadata: BodyMetadata,
)
    ensures
        encode::request_plan(headers, version, metadata) matches Ok((planned, mode))
            ==> validate::framing_of(planned, version) == Ok::<
            Option<BodyMode>,
            head::HeadError,
        >(Some(mode)),
{
    declared_framing_is_understood(headers, version);
}

/// What an outgoing representation declares of its body is what a receiver makes
/// of the fields; where it ends with the connection, there are none.
pub proof fn representation_framing_is_understood(
    headers: Seq<(Seq<u8>, Seq<Seq<u8>>)>,
    version: Version,
    metadata: BodyMetadata,
)
    ensures
        encode::representation_plan(headers, version, metadata) matches Ok((planned, mode))
            ==> validate::framing_of(planned, version) == Ok::<
            Option<BodyMode>,
            head::HeadError,
        >(
            if mode == BodyMode::UntilEof {
                None
            } else {
                Some(mode)
            },
        ),
{
    declared_framing_is_understood(headers, version);
}

proof fn declared_framing_is_understood(
    headers: Seq<(Seq<u8>, Seq<Seq<u8>>)>,
    version: Version,
)
    ensures
        forall|length: u64|
            #[trigger] encode::with_length(headers, length) matches Ok(planned)
                ==> validate::framing_of(planned, version) == Ok::<
                Option<BodyMode>,
                head::HeadError,
            >(Some(BodyMode::Fixed(length))),
        version == Version::Http11 ==> (encode::with_chunks(headers) matches Ok(planned)
            ==> validate::framing_of(planned, version) == Ok::<
            Option<BodyMode>,
            head::HeadError,
        >(Some(BodyMode::Chunked))),
        !fields::has_name(headers, fields::named("content-length")) && !fields::has_name(
            headers,
            fields::named("transfer-encoding"),
        ) ==> validate::framing_of(headers, version) == Ok::<Option<BodyMode>, head::HeadError>(
            None,
        ),
{
    let lengths = fields::named("content-length");
    let codings = fields::named("transfer-encoding");
    framing_names_differ();
    assert forall|length: u64|
        #[trigger] encode::with_length(headers, length) matches Ok(planned) implies
        validate::framing_of(encode::with_length(headers, length)->Ok_0, version) == Ok::<
        Option<BodyMode>,
        head::HeadError,
    >(Some(BodyMode::Fixed(length))) by {
        let digits = encode::decimal_digits(length as nat);
        inserted_is_found(headers, lengths, digits, codings);
        declared_length_is_read_back(length);
    }
    inserted_is_found(headers, codings, encode::chunked_text(), lengths);
    declared_chunks_are_read_back();
    if !fields::has_name(headers, lengths) {
        absent_name_has_no_values(headers, lengths);
    }
    if !fields::has_name(headers, codings) {
        absent_name_has_no_values(headers, codings);
    }
}

proof fn section_run(
    section: Seq<u8>,
    trailers: Seq<(Seq<u8>, Seq<Seq<u8>>)>,
    limits: DecodeLimits,
    rest: Seq<u8>,
    eof: bool,
)
    requires
        decode::trailer_section(section + rest, 0, limits.max_trailer_bytes as nat) == Ok::<
            _,
            DecodeError,
        >(Some(section.len())),
        decode::trailer_fields(section, limits.max_trailers as nat) == Ok::<_, DecodeError>(
            (section.len(), trailers),
        ),
    ensures
        decode_laws::run(
            DecoderState::Chunked(ChunkState::Trailers { scanned: 0 }),
            limits,
            section + rest,
            eof,
        ) == (decode_laws::Run {
            data: Seq::empty(),
            used: section.len(),
            end: decode_laws::RunEnd::Finished { trailers: Some(trailers) },
        }),
{
    reveal(decode_laws::taken);
    let input = section + rest;
    assert(input.skip(0) =~= input);
    assert(input.take(section.len() as int) =~= section);
}

/// The line that ends the payload and the trailer section behind it end a body, and
/// leave the bytes behind them: `section` reads as `trailers`.
pub proof fn ending_is_read_back(
    section: Seq<u8>,
    trailers: Seq<(Seq<u8>, Seq<Seq<u8>>)>,
    limits: DecodeLimits,
    rest: Seq<u8>,
    eof: bool,
)
    requires
        limits.max_chunk_line_bytes >= 3,
        decode::trailer_section(section + rest, 0, limits.max_trailer_bytes as nat) == Ok::<
            _,
            DecodeError,
        >(Some(section.len())),
        decode::trailer_fields(section, limits.max_trailers as nat) == Ok::<_, DecodeError>(
            (section.len(), trailers),
        ),
    ensures
        decode_laws::run(at_chunk(), limits, decode::last_line() + (section + rest), eof) == (
        decode_laws::Run {
            data: Seq::empty(),
            used: 3 + section.len(),
            end: decode_laws::RunEnd::Finished { trailers: Some(trailers) },
        }),
{
    let ending = section + rest;
    let last = decode::last_line() + ending;
    last_line_is_read_back(ending, limits.max_chunk_line_bytes as nat);
    decode_laws::run_past_line(0, limits, last, eof, 0, 3);
    assert(last.skip(3) =~= ending);
    section_run(section, trailers, limits, rest, eof);
    assert(Seq::<u8>::empty() + Seq::<u8>::empty() =~= Seq::<u8>::empty());
}

/// A chunked body that comes in any pieces gives back its payload and its trailers,
/// and leaves the bytes behind it: `section` is the trailer section, which reads as
/// `trailers`.
pub proof fn body_survives_fragments(
    payloads: Seq<Seq<u8>>,
    section: Seq<u8>,
    trailers: Seq<(Seq<u8>, Seq<Seq<u8>>)>,
    limits: DecodeLimits,
    rest: Seq<u8>,
    pieces: Seq<Seq<u8>>,
    eof: bool,
)
    requires
        forall|i: int|
            0 <= i < payloads.len() ==> (#[trigger] payloads[i]).len() <= u64::MAX && (
            payloads[i].len() > 0 ==> encode::chunk_line_text(payloads[i].len()).len()
                <= limits.max_chunk_line_bytes),
        limits.max_chunk_line_bytes >= 3,
        decode::trailer_section(section + rest, 0, limits.max_trailer_bytes as nat) == Ok::<
            _,
            DecodeError,
        >(Some(section.len())),
        decode::trailer_fields(section, limits.max_trailers as nat) == Ok::<_, DecodeError>(
            (section.len(), trailers),
        ),
        decode_laws::joined(pieces) == chunks(payloads) + (decode::last_line() + (section + rest)),
        decode_laws::joined(pieces).len() <= usize::MAX,
    ensures
        decode_laws::run_pieces(at_chunk(), limits, Seq::empty(), pieces, eof) == (decode_laws::Run {
            data: decode_laws::joined(payloads),
            used: chunks(payloads).len() + 3 + section.len(),
            end: decode_laws::RunEnd::Finished { trailers: Some(trailers) },
        }),
{
    let none = Seq::<u8>::empty();
    let last = decode::last_line() + (section + rest);
    assert(none + decode_laws::joined(pieces) =~= chunks(payloads) + last);
    assert(decode_laws::follows(at_chunk(), limits, none));
    decode_laws::all_fragments_agree(at_chunk(), limits, none, pieces, eof);
    payload_is_read_back(payloads, limits, last, eof);
    ending_is_read_back(section, trailers, limits, rest, eof);
    assert(decode_laws::joined(payloads) + none =~= decode_laws::joined(payloads));
}

/// A request head that was sent is read back as it was: whatever parser of these
/// limits looks at its text gives the same method, target, version and fields.
pub proof fn sent_request_is_read_back(
    sent: RequestView,
    limits: HeadLimits,
    read: Result<RequestHead, HeadError>,
)
    requires
        encode::minor_of(sent.version) is Some,
        wire::plain_request_line(sent.method, sent.target.text, encode::minor_of(sent.version)->0),
        start_line::parsed_target(sent.target.text) == Some(sent.target),
        proper_fields(sent.headers),
        head::plain_headers(limits, fields::lines(sent.headers)),
        encode::request_bytes(sent).len() <= limits.max_bytes,
        head::gives_request_back(limits, encode::request_bytes(sent), read),
    ensures
        read matches Ok(parsed) && parsed@ == sent,
{
    fields_are_gathered_back(sent.headers);
    let text = head::request_text(
        sent.method,
        sent.target.text,
        encode::minor_of(sent.version)->0,
        fields::lines(sent.headers),
    );
    assert(encode::request_bytes(sent) == text);
}

/// A response head that was sent is read back as it was: whatever parser of
/// these limits looks at its text gives the same version, status and fields.
pub proof fn sent_response_is_read_back(
    sent: ResponseView,
    limits: HeadLimits,
    read: Result<ResponseHead, HeadError>,
)
    requires
        encode::minor_of(sent.version) is Some,
        wire::plain_status_line(
            encode::minor_of(sent.version)->0,
            sent.status,
            encode::reason_text(sent.status),
        ),
        sent.status <= 599,
        proper_fields(sent.headers),
        head::plain_headers(limits, fields::lines(sent.headers)),
        encode::response_bytes(sent).len() <= limits.max_bytes,
        head::gives_response_back(limits, encode::response_bytes(sent), read),
    ensures
        read matches Ok(parsed) && parsed@ == sent,
{
    fields_are_gathered_back(sent.headers);
    let text = head::response_text(
        encode::minor_of(sent.version)->0,
        sent.status,
        encode::reason_text(sent.status),
        fields::lines(sent.headers),
    );
    assert(encode::response_bytes(sent) == text);
}

} // verus!
