//! What holds of body encoding over any number of calls.

use crate::body::{Buffer, TrailerHint};
use crate::message::{self, Version};
use crate::outside::fields;
use crate::outside::octets;
use crate::outside::wire;
use crate::proto::h1::client_laws;
use crate::proto::h1::codec_laws;
use crate::proto::h1::decode;
use crate::proto::h1::encode::{
    self, BodyEncoder, BodyMetadata, BodyState, BoundedWriter, DataFraming, EncodeError,
    EncodeLimits, Memory,
};
use crate::proto::h1::head::{HeadError, RequestHead, ResponseHead, ResponseView};
use crate::proto::h1::meaning_laws::held;
use crate::proto::h1::values;
use crate::proto::h1::BodyMode;
use bytes::Bytes;
use http::HeaderMap;
use vstd::prelude::*;

verus! {

/// The encoder behind payloads of these lengths.
pub open spec fn after_payloads(encoder: BodyEncoder, lengths: Seq<nat>) -> BodyEncoder
    decreases lengths.len(),
{
    if lengths.len() == 0 {
        encoder
    } else {
        encode::after_data(after_payloads(encoder, lengths.drop_last()), lengths.last())
    }
}

/// Whether payloads of these lengths are taken one after the other.
pub open spec fn accepts_payloads(encoder: BodyEncoder, lengths: Seq<nat>) -> bool
    decreases lengths.len(),
{
    lengths.len() == 0 || (accepts_payloads(encoder, lengths.drop_last()) && encode::data_conflict(
        after_payloads(encoder, lengths.drop_last()),
        lengths.last(),
    ) is None)
}

pub open spec fn total(lengths: Seq<nat>) -> nat
    decreases lengths.len(),
{
    if lengths.len() == 0 {
        0
    } else {
        total(lengths.drop_last()) + lengths.last()
    }
}

proof fn payloads_are_counted(encoder: BodyEncoder, lengths: Seq<nat>)
    requires
        accepts_payloads(encoder, lengths),
    ensures
        after_payloads(encoder, lengths).state == encoder.state,
        after_payloads(encoder, lengths).remaining_lower == (if encoder.remaining_lower < total(
            lengths,
        ) {
            0
        } else {
            encoder.remaining_lower - total(lengths)
        }),
        match encoder.remaining_upper {
            Some(upper) => total(lengths) <= upper && after_payloads(
                encoder,
                lengths,
            ).remaining_upper == Some((upper - total(lengths)) as u64),
            None => after_payloads(encoder, lengths).remaining_upper is None,
        },
    decreases lengths.len(),
{
    if lengths.len() > 0 {
        payloads_are_counted(encoder, lengths.drop_last());
    }
}

/// Whether a body may still have payload.
pub open spec fn is_open(state: BodyState) -> bool {
    state == BodyState::Fixed || state == BodyState::Chunked || state == BodyState::CloseDelimited
}

/// A producer is held to what it promised, and to no more: a payload is taken
/// exactly where the upper bound has room for it, and the body may end exactly
/// behind the lower bound.
pub proof fn promises_are_kept(encoder: BodyEncoder, lengths: Seq<nat>)
    requires
        accepts_payloads(encoder, lengths),
    ensures
        encoder.remaining_upper matches Some(upper) ==> total(lengths) <= upper,
        is_open(encoder.state) ==> forall|length: nat| #[trigger]
            encode::data_conflict(after_payloads(encoder, lengths), length) is None <==> (
            encoder.remaining_upper matches Some(upper) ==> total(lengths) + length <= upper),
        is_open(encoder.state) ==> (encode::end_conflict(after_payloads(encoder, lengths)) is None
            <==> encoder.remaining_lower <= total(lengths)),
        forall|trailers: Seq<(Seq<u8>, Seq<Seq<u8>>)>| #[trigger]
            encode::trailers_conflict(after_payloads(encoder, lengths), trailers) is None
                ==> encoder.remaining_lower <= total(lengths),
{
    payloads_are_counted(encoder, lengths);
}

/// A refusal is final: whatever is asked for behind it is refused with the same
/// error.
pub proof fn refusal_is_final(
    encoder: BodyEncoder,
    error: EncodeError,
    length: nat,
    trailers: Seq<(Seq<u8>, Seq<Seq<u8>>)>,
)
    ensures
        encode::data_conflict(encode::refused(encoder, error), length) == Some(error),
        encode::trailers_conflict(encode::refused(encoder, error), trailers) == Some(error),
        encode::end_conflict(encode::refused(encoder, error)) == Some(error),
{
}

/// Nothing follows the end of a body.
pub proof fn nothing_follows_the_end(
    encoder: BodyEncoder,
    length: nat,
    trailers: Seq<(Seq<u8>, Seq<Seq<u8>>)>,
)
    requires
        encoder.state == BodyState::Done,
    ensures
        encode::data_conflict(encoder, length) == Some(EncodeError::FrameAfterEnd),
        encode::trailers_conflict(encoder, trailers) == Some(EncodeError::FrameAfterEnd),
        encode::end_conflict(encoder) == Some(EncodeError::FrameAfterEnd),
{
}

/// A response that only describes a representation, to HEAD or with a status that
/// says that nothing was modified, has no body and keeps the fields that describe
/// it: a length that is known is declared.
pub proof fn representation_is_described(
    head: ResponseView,
    metadata: BodyMetadata,
    method: Seq<u8>,
)
    requires
        method == message::method_named("HEAD") || head.status == 304,
        method == message::method_named("CONNECT") ==> !(200 <= head.status < 300),
        !(100 <= head.status < 200),
        head.status != 204,
    ensures
        encode::planned_response(head, metadata, method) matches Ok(meaning) ==> {
            &&& meaning.body == BodyMode::Empty
            &&& encode::representation_plan(head.headers, head.version, metadata) matches Ok(
                (planned, _),
            ) && meaning.head.headers == planned
            &&& encode::known_length(metadata) matches Some(length) ==> values::content_length(
                fields::values_of(meaning.head.headers, fields::named("content-length")),
            ) == Ok::<Option<u64>, HeadError>(Some(length))
        },
{
    if let Some(length) = encode::known_length(metadata) {
        codec_laws::inserted_is_found(
            head.headers,
            fields::named("content-length"),
            encode::decimal_digits(length as nat),
            fields::named("content-length"),
        );
        codec_laws::declared_length_is_read_back(length);
    }
}

/// A payload is sent as one chunk where the body comes in chunks, and as it is where
/// it does not; it is taken exactly where the body is open and the promised bounds
/// have room for it.
pub proof fn payload_is_framed(
    encoder: &mut BodyEncoder,
    length: usize,
    result: Result<DataFraming, EncodeError>,
    payload: Seq<u8>,
)
    requires
        call_ensures(BodyEncoder::data, (encoder, length), result),
        payload.len() == length,
    ensures
        result is Ok <==> is_open(old(encoder).state) && (old(encoder).remaining_upper matches Some(
            upper,
        ) ==> length <= upper),
        result matches Ok(framing) ==> {
            let sent = framing.prefix.contents() + payload + octets::octets(framing.suffix);
            &&& old(encoder).state == BodyState::Chunked ==> sent == codec_laws::chunk(payload)
            &&& old(encoder).state != BodyState::Chunked ==> sent == payload
            &&& final(encoder).state == old(encoder).state
            &&& final(encoder).trailers == old(encoder).trailers
            &&& old(encoder).remaining_upper matches Some(upper) ==> final(
                encoder
            ).remaining_upper == Some((upper - length) as u64)
            &&& old(encoder).remaining_upper is None ==> final(encoder).remaining_upper is None
            &&& final(encoder).remaining_lower == (if length <= old(encoder).remaining_lower {
                old(encoder).remaining_lower - length
            } else {
                0
            })
        },
        result matches Err(error) ==> final(encoder).state == BodyState::Failed(error) && match old(
            encoder
        ).state {
            BodyState::Failed(before) => error == before,
            BodyState::Done => error == EncodeError::FrameAfterEnd,
            BodyState::NoBody => error == EncodeError::BodyForbidden,
            _ => error == EncodeError::LengthMismatch,
        },
{
    if let Ok(framing) = result {
        let sent = framing.prefix.contents() + payload + octets::octets(framing.suffix);
        if old(encoder).state == BodyState::Chunked {
            assert(sent =~= codec_laws::chunk(payload));
        } else {
            assert(sent =~= payload);
        }
    }
}

/// A body ends exactly where what was promised has come; chunks then end with the
/// last line and an empty trailer section, and the rest ends without a byte. Nothing
/// may follow.
pub proof fn body_ends_behind_its_promise(
    encoder: &mut BodyEncoder,
    result: Result<Bytes, EncodeError>,
)
    requires
        call_ensures(BodyEncoder::finish, (encoder,), result),
    ensures
        result is Ok <==> old(encoder).state == BodyState::NoBody || (is_open(old(encoder).state)
            && old(encoder).remaining_lower == 0),
        result matches Ok(bytes) ==> {
            &&& old(encoder).state == BodyState::Chunked ==> octets::octets(bytes)
                == decode::last_line() + decode::section_text(Seq::empty())
            &&& old(encoder).state != BodyState::Chunked ==> octets::octets(bytes).len() == 0
            &&& final(encoder).state == BodyState::Done
        },
        result matches Err(error) ==> final(encoder).state == BodyState::Failed(error) && match old(
            encoder
        ).state {
            BodyState::Failed(before) => error == before,
            BodyState::Done => error == EncodeError::FrameAfterEnd,
            _ => error == EncodeError::LengthMismatch,
        },
{
    if let Ok(bytes) = result {
        if old(encoder).state == BodyState::Chunked {
            assert(octets::octets(bytes) =~= decode::last_line() + decode::section_text(
                Seq::empty(),
            ));
        }
    }
}

/// Trailers end a body that comes in chunks and announced that it may have them,
/// where they hold no field that may not come behind a body and fit the limit: they
/// are the last line and a section of the fields.
pub proof fn trailers_end_chunks(
    encoder: &mut BodyEncoder,
    trailers: &HeaderMap,
    memory: Memory,
    result: Result<Bytes, EncodeError>,
)
    requires
        call_ensures(BodyEncoder::trailers_with_memory, (encoder, trailers, memory), result),
    ensures
        result matches Ok(bytes) ==> {
            &&& octets::octets(bytes) == decode::last_line() + decode::section_text(
                fields::lines(fields::entries(*trailers)),
            )
            &&& octets::octets(bytes).len() <= old(encoder).max_trailer_bytes
            &&& old(encoder).state == BodyState::Chunked
            &&& old(encoder).remaining_lower == 0
            &&& old(encoder).trailers == TrailerHint::MayHave
            &&& decode::trailers_allowed(fields::entries(*trailers))
            &&& final(encoder).state == BodyState::Done
        },
        result matches Err(error) ==> final(encoder).state == BodyState::Failed(error),
        old(encoder).state == BodyState::Chunked && old(encoder).remaining_lower == 0 && old(
            encoder
        ).trailers == TrailerHint::MayHave && decode::trailers_allowed(fields::entries(*trailers))
            && 3 + decode::section_text(fields::lines(fields::entries(*trailers))).len() <= old(
            encoder
        ).max_trailer_bytes && memory == Memory::Granted ==> result is Ok,
        old(encoder).state == BodyState::Chunked && old(encoder).remaining_lower > 0 ==> result
            == Err::<Bytes, _>(EncodeError::LengthMismatch),
        old(encoder).state == BodyState::Fixed || old(encoder).state == BodyState::CloseDelimited
            || old(encoder).state == BodyState::NoBody ==> result == Err::<Bytes, _>(
            EncodeError::TrailersForbidden,
        ),
        old(encoder).state == BodyState::Done ==> result == Err::<Bytes, _>(
            EncodeError::FrameAfterEnd,
        ),
{
    let lines = fields::lines(fields::entries(*trailers));
    assert(encode::trailer_text(fields::entries(*trailers)) =~= decode::last_line()
        + decode::section_text(lines));
}

/// An encoder starts open for every body but none, and is refused where the mode
/// cannot carry what the producer promises.
pub proof fn encoder_carries_its_promise(
    mode: BodyMode,
    metadata: BodyMetadata,
    limits: EncodeLimits,
    result: Result<BodyEncoder, EncodeError>,
)
    requires
        call_ensures(BodyEncoder::new, (mode, metadata, limits), result),
    ensures
        mode matches BodyMode::Fixed(length) ==> (result is Ok <==> client_laws::promises(
            metadata,
            length,
        )),
        mode == BodyMode::UntilEof ==> (result is Ok <==> metadata.trailers == TrailerHint::Absent),
        mode == BodyMode::Empty || mode == BodyMode::Chunked ==> result is Ok,
        result matches Ok(encoder) ==> {
            &&& encoder.state == BodyState::NoBody <==> mode == BodyMode::Empty
            &&& encoder.state == BodyState::Chunked <==> mode == BodyMode::Chunked
            &&& encoder.state == BodyState::Fixed <==> mode is Fixed
            &&& encoder.state == BodyState::CloseDelimited <==> mode == BodyMode::UntilEof
            &&& encoder.remaining_lower == metadata.size.low()
            &&& encoder.remaining_upper == metadata.size.high()
            &&& encoder.trailers == metadata.trailers
            &&& encoder.max_trailer_bytes == limits.max_trailer_bytes
        },
{
}

/// The framing of a request is planned by what its producer promises: a known
/// length, or chunks, which only HTTP/1.1 has. Fields that say otherwise are refused.
pub proof fn request_framing_is_planned(
    headers: &mut HeaderMap,
    version: Version,
    metadata: BodyMetadata,
    result: Result<BodyMode, EncodeError>,
)
    requires
        call_ensures(encode::plan_request_framing, (headers, version, metadata), result),
    ensures
        result matches Ok(mode) ==> {
            &&& forall|length: u64| #[trigger]
                client_laws::promises(metadata, length) <==> mode == BodyMode::Fixed(length)
            &&& mode is Fixed || mode == BodyMode::Chunked && version == Version::Http11
            &&& mode is Fixed ==> held(*old(headers), "transfer-encoding").len() == 0
            &&& mode == BodyMode::Chunked ==> held(*old(headers), "content-length").len() == 0
        },
        version != Version::Http11 && known(metadata) is None ==> (result matches Err(error) && (
        fields::roomy(fields::entries(*old(headers))) ==> error == EncodeError::Unsupported)),
        held(*old(headers), "transfer-encoding").len() == 0 && held(
            *old(headers),
            "content-length",
        ).len() == 0 && !fields::has_name(
            fields::entries(*old(headers)),
            fields::named("content-length"),
        ) && (version == Version::Http11 || known(metadata) is Some) && fields::roomy(
            fields::entries(*old(headers)),
        ) ==> result is Ok,
{
    crate::proto::h1::meaning_laws::coding_is_named(held(*old(headers), "transfer-encoding"));
    crate::proto::h1::meaning_laws::length_is_stated(held(*old(headers), "content-length"));
    if !fields::has_name(fields::entries(*old(headers)), fields::named("content-length")) {
        codec_laws::absent_name_has_no_values(
            fields::entries(*old(headers)),
            fields::named("content-length"),
        );
    }
}

/// The length that a producer promises without trailers.
pub open spec fn known(metadata: BodyMetadata) -> Option<u64> {
    if client_laws::promises(metadata, metadata.size.low()) {
        Some(metadata.size.low())
    } else {
        None
    }
}

/// Decimal digits count in tens.
pub proof fn lengths_count_in_tens(
    value: u64,
    digit: u64,
    text: Vec<u8>,
    longer: Vec<u8>,
)
    requires
        value > 0,
        digit < 10,
        10 * value + digit <= u64::MAX,
        call_ensures(encode::decimal, (value,), text),
        call_ensures(encode::decimal, ((10 * value + digit) as u64,), longer),
    ensures
        longer@ == text@.push(('0' as u8 + digit) as u8),
{
    assert((10 * value + digit) / 10 == value) by (nonlinear_arith)
        requires
            digit < 10,
    ;
    assert((10 * value + digit) % 10 == digit) by (nonlinear_arith)
        requires
            digit < 10,
    ;
}

/// A text grows by what is pushed where that stays within the bound, and by nothing
/// otherwise.
pub proof fn text_stays_within_its_bound(
    writer: &mut BoundedWriter,
    value: &[u8],
    reserved: bool,
    result: Result<(), EncodeError>,
)
    requires
        call_ensures(BoundedWriter::push_reserved, (writer, value, reserved), result),
    ensures
        result is Ok ==> final(writer).written() == old(writer).written() + value@ && final(
            writer
        ).written().len() <= old(writer).bound(),
        result is Err ==> final(writer).written() == old(writer).written(),
        result is Ok <==> reserved && old(writer).written().len() + value@.len() <= old(
            writer
        ).bound(),
        result matches Err(error) ==> error == EncodeError::Limit,
{
}

/// What is wrong with a head that is to be sent is told apart: what exceeds a limit,
/// what is not supported, what is wrong with its framing, and the rest.
pub proof fn refusals_are_told_apart(error: HeadError, result: EncodeError)
    requires
        call_ensures(encode::map_head_error, (error,), result),
    ensures
        result == EncodeError::Limit <==> error is Limit,
        result == EncodeError::Unsupported <==> error == HeadError::UnsupportedTransferCoding
            || error == HeadError::UnsupportedVersion,
        result == EncodeError::InvalidFraming <==> error == HeadError::AmbiguousMessageLength
            || error == HeadError::InvalidContentLength || error
            == HeadError::InvalidTransferEncoding,
        result == EncodeError::Limit || result == EncodeError::Unsupported || result
            == EncodeError::InvalidFraming || result == EncodeError::InvalidHead,
{
}

/// Versions before and behind HTTP/1 cannot be written; the others are written by
/// their number.
pub proof fn versions_are_written(version: Version, result: Result<Vec<u8>, EncodeError>)
    requires
        call_ensures(encode::version_bytes, (version,), result),
    ensures
        result is Ok <==> version == Version::Http10 || version == Version::Http11,
        result matches Ok(text) ==> text@ == vstd::utf8::encode_utf8("HTTP/1."@).push(
            if version == Version::Http11 {
                '1' as u8
            } else {
                '0' as u8
            },
        ),
        result matches Err(error) ==> error == EncodeError::Unsupported,
{
    reveal_strlit("HTTP/1.");
    assert(vstd::utf8::is_ascii_chars("HTTP/1."@));
    vstd::utf8::is_ascii_chars_encode_utf8("HTTP/1."@);
    if let Ok(text) = result {
        assert(text@ =~= vstd::utf8::encode_utf8("HTTP/1."@).push(
            if version == Version::Http11 {
                '1' as u8
            } else {
                '0' as u8
            },
        ));
    }
}

/// A text grows by what is pushed where it stays within its bound and there is memory,
/// and is left as it was otherwise; it ends up as what was pushed.
pub proof fn pushed_text_is_kept(
    limit: usize,
    memory: Memory,
    fresh: BoundedWriter,
    writer: &mut BoundedWriter,
    value: &[u8],
    result: Result<(), EncodeError>,
    done: BoundedWriter,
    bytes: Bytes,
)
    requires
        call_ensures(BoundedWriter::with_memory, (limit, memory), fresh),
        call_ensures(BoundedWriter::push, (writer, value), result),
        call_ensures(BoundedWriter::finish, (done,), bytes),
    ensures
        fresh.written().len() == 0 && fresh.bound() == limit && fresh.source() == memory,
        result is Ok ==> final(writer).written() == old(writer).written() + value@ && final(
            writer
        ).written().len() <= old(writer).bound(),
        result matches Err(error) ==> error == EncodeError::Limit && final(writer).written() == old(
            writer
        ).written(),
        old(writer).source() == Memory::Granted ==> (result is Ok <==> old(writer).written().len()
            + value@.len() <= old(writer).bound()),
        old(writer).source() == Memory::Refused && value@.len() > 0 ==> result is Err,
        final(writer).bound() == old(writer).bound() && final(writer).source() == old(
            writer
        ).source(),
        octets::octets(bytes) == done.written(),
{
}

/// Fields are written one line for each value, where the lines fit.
pub proof fn field_lines_are_written(
    writer: &mut BoundedWriter,
    headers: &HeaderMap,
    result: Result<(), EncodeError>,
)
    requires
        call_ensures(encode::write_headers, (writer, headers), result),
        old(writer).source() == Memory::Granted,
    ensures
        ({
            let text = wire::field_block(fields::lines(fields::entries(*headers)));
            &&& (result is Ok ==> final(writer).written() == old(writer).written() + text)
            &&& (old(writer).written().len() + text.len() <= old(writer).bound() ==> result is Ok)
            &&& (fields::lines(fields::entries(*headers)).len() > 0 && old(writer).written().len()
                + text.len() > old(writer).bound() ==> result == Err::<(), _>(EncodeError::Limit))
        }),
{
}

/// A head is written as its start line and its field lines where they fit its limit.
pub proof fn heads_are_written_whole(
    request: &RequestHead,
    response: &ResponseHead,
    limit: usize,
    first: Result<Bytes, EncodeError>,
    second: Result<Bytes, EncodeError>,
)
    requires
        call_ensures(encode::write_request, (request, limit, Memory::Granted), first),
        call_ensures(encode::write_response, (response, limit, Memory::Granted), second),
        request@.version == Version::Http11,
        response@.version == Version::Http10,
    ensures
        ({
            let asked = wire::request_line(
                request@.method,
                request@.target.text,
                1,
            ) + wire::field_block(fields::lines(request@.headers)) + seq![
                '\r' as u8,
                '\n' as u8,
            ];
            &&& (first matches Ok(bytes) ==> octets::octets(bytes) == asked)
            &&& (first is Ok <==> asked.len() <= limit)
            &&& (first matches Err(error) ==> error == EncodeError::Limit)
        }),
        ({
            let answered = wire::status_line(
                0,
                response@.status,
                encode::reason_text(response@.status),
            ) + wire::field_block(fields::lines(response@.headers)) + seq![
                '\r' as u8,
                '\n' as u8,
            ];
            &&& (second matches Ok(bytes) ==> octets::octets(bytes) == answered)
            &&& (second is Ok <==> answered.len() <= limit)
            &&& (second matches Err(error) ==> error == EncodeError::Limit)
        }),
{
}

} // verus!
