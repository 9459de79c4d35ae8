//! What holds of the framing that outgoing messages declare.

use crate::ascii;
use crate::message::{self, Method, StatusCode, Target, Version};
use crate::body::TrailerHint;
use crate::outside::fields;
use crate::outside::octets;
use crate::outside::start_line;
use crate::outside::wire;
use crate::proto::h1::client_laws::promises;
use crate::proto::h1::codec_laws;
use crate::proto::h1::encode::{
    self, BodyMetadata, EncodeError, EncodeLimits, EncodedHead, Memory,
};
use crate::proto::h1::encode_laws::known;
use crate::proto::h1::head::{HeadError, RequestHead, RequestView, ResponseHead, ResponseView};
use crate::proto::h1::meaning_laws::{
    all_state, coding_is_named, held, length_is_stated, only_chunked, rules_out_body,
};
use crate::proto::h1::syntax;
use crate::proto::h1::validate::{ValidatedRequestHead, ValidatedResponseHead};
use crate::proto::h1::values;
use crate::proto::h1::BodyMode;
use http::HeaderMap;
use vstd::prelude::*;

verus! {

/// Whether two sets of fields hold the same values under every name but one.
pub open spec fn agree_but_for(left: HeaderMap, right: HeaderMap, name: Seq<u8>) -> bool {
    forall|other: Seq<u8>|
        other != name ==> #[trigger] fields::values_of(fields::entries(left), other)
            == fields::values_of(fields::entries(right), other)
}

/// Declaring a length leaves fields that state it and nothing else: it is added where
/// none was stated, kept where the same one was, and refused where another one was or
/// where the body is in chunks.
pub proof fn length_is_declared(
    headers: &mut HeaderMap,
    length: u64,
    result: Result<(), EncodeError>,
)
    requires
        call_ensures(encode::set_exact_length, (headers, length), result),
    ensures
        result is Ok ==> all_state(held(*final(headers), "content-length"), length),
        result is Ok ==> held(*old(headers), "transfer-encoding").len() == 0,
        result is Ok ==> agree_but_for(
            *final(headers),
            *old(headers),
            fields::named("content-length"),
        ),
        result is Ok && held(*old(headers), "content-length").len() > 0 ==> fields::entries(
            *final(headers),
        ) == fields::entries(*old(headers)),
        fields::roomy(fields::entries(*old(headers))) && held(
            *old(headers),
            "transfer-encoding",
        ).len() == 0 && (held(*old(headers), "content-length").len() == 0 || all_state(
            held(*old(headers), "content-length"),
            length,
        )) ==> result is Ok,
        forall|other: u64|
            other != length && held(*old(headers), "transfer-encoding").len() == 0
                && #[trigger] all_state(held(*old(headers), "content-length"), other)
                && fields::roomy(fields::entries(*old(headers))) ==> result == Err::<(), _>(
                EncodeError::LengthMismatch,
            ),
        only_chunked(held(*old(headers), "transfer-encoding")) && fields::roomy(
            fields::entries(*old(headers)),
        ) ==> result == Err::<(), _>(EncodeError::InvalidFraming),
{
    let before = fields::entries(*old(headers));
    let name = fields::named("content-length");
    let digits = encode::decimal_digits(length as nat);
    coding_is_named(held(*old(headers), "transfer-encoding"));
    length_is_stated(held(*old(headers), "content-length"));
    codec_laws::declared_length_is_read_back(length);
    codec_laws::inserted_is_found(before, name, digits, name);
    length_is_stated(seq![digits]);
    assert forall|other: Seq<u8>| other != name implies #[trigger] fields::values_of(
        fields::inserted(before, name, digits),
        other,
    ) == fields::values_of(before, other) by {
        codec_laws::inserted_is_found(before, name, digits, other);
    }
}

/// Declaring chunks leaves fields that name the chunked coding and nothing else: it is
/// added where no coding was named, kept where it was, and refused where a length was
/// stated.
pub proof fn chunks_are_declared(headers: &mut HeaderMap, result: Result<(), EncodeError>)
    requires
        call_ensures(encode::set_chunked, (headers,), result),
    ensures
        result is Ok ==> only_chunked(held(*final(headers), "transfer-encoding")),
        result is Ok ==> held(*old(headers), "content-length").len() == 0,
        result is Ok ==> agree_but_for(
            *final(headers),
            *old(headers),
            fields::named("transfer-encoding"),
        ),
        result is Ok && held(*old(headers), "transfer-encoding").len() > 0 ==> fields::entries(
            *final(headers),
        ) == fields::entries(*old(headers)),
        fields::has_name(fields::entries(*old(headers)), fields::named("content-length"))
            && fields::roomy(fields::entries(*old(headers))) ==> result == Err::<(), _>(
            EncodeError::InvalidFraming,
        ),
        fields::roomy(fields::entries(*old(headers))) && !fields::has_name(
            fields::entries(*old(headers)),
            fields::named("content-length"),
        ) && (held(*old(headers), "transfer-encoding").len() == 0 || only_chunked(
            held(*old(headers), "transfer-encoding"),
        )) ==> result is Ok,
{
    let before = fields::entries(*old(headers));
    let name = fields::named("transfer-encoding");
    let text = encode::chunked_text();
    coding_is_named(held(*old(headers), "transfer-encoding"));
    codec_laws::declared_chunks_are_read_back();
    codec_laws::inserted_is_found(before, name, text, name);
    coding_is_named(seq![text]);
    if !fields::has_name(before, fields::named("content-length")) {
        codec_laws::absent_name_has_no_values(before, fields::named("content-length"));
    }
    assert forall|other: Seq<u8>| other != name implies #[trigger] fields::values_of(
        fields::inserted(before, name, text),
        other,
    ) == fields::values_of(before, other) by {
        codec_laws::inserted_is_found(before, name, text, other);
    }
}

/// A representation is framed by its length where that is known and no trailers may
/// follow; otherwise in chunks by HTTP/1.1, and by the end of the connection before it,
/// which neither trailers nor fields that frame a body go with.
pub proof fn representation_framing_is_planned(
    headers: &mut HeaderMap,
    version: Version,
    metadata: BodyMetadata,
    result: Result<BodyMode, EncodeError>,
)
    requires
        call_ensures(encode::plan_representation_framing, (headers, version, metadata), result),
        fields::roomy(fields::entries(*old(headers))),
    ensures
        result matches Ok(mode) ==> {
            &&& forall|length: u64| #[trigger]
                promises(metadata, length) <==> mode == BodyMode::Fixed(length)
            &&& (mode == BodyMode::Chunked <==> known(metadata) is None && version
                == Version::Http11)
            &&& (mode == BodyMode::UntilEof <==> known(metadata) is None && version
                != Version::Http11)
            &&& (mode == BodyMode::UntilEof ==> fields::entries(*final(headers)) == fields::entries(
                *old(headers),
            ) && metadata.trailers == TrailerHint::Absent)
            &&& mode != BodyMode::Empty
        },
        known(metadata) is None && version != Version::Http11 && metadata.trailers
            == TrailerHint::MayHave ==> result == Err::<BodyMode, _>(
            EncodeError::TrailersForbidden,
        ),
        known(metadata) is None && version != Version::Http11 && metadata.trailers
            == TrailerHint::Absent ==> (result is Ok <==> !fields::has_name(
            fields::entries(*old(headers)),
            fields::named("content-length"),
        ) && !fields::has_name(
            fields::entries(*old(headers)),
            fields::named("transfer-encoding"),
        )),
        !fields::has_name(fields::entries(*old(headers)), fields::named("content-length"))
            && !fields::has_name(
            fields::entries(*old(headers)),
            fields::named("transfer-encoding"),
        ) && (version == Version::Http11 || metadata.trailers == TrailerHint::Absent)
            ==> result is Ok,
{
    let before = fields::entries(*old(headers));
    coding_is_named(held(*old(headers), "transfer-encoding"));
    length_is_stated(held(*old(headers), "content-length"));
    if !fields::has_name(before, fields::named("content-length")) {
        codec_laws::absent_name_has_no_values(before, fields::named("content-length"));
    }
    if !fields::has_name(before, fields::named("transfer-encoding")) {
        codec_laws::absent_name_has_no_values(before, fields::named("transfer-encoding"));
    }
}

/// A response without a body is sent exactly where none is promised and no field frames
/// one. One that only describes a representation frames it and sends none; one that
/// resets the view of its client has a body of no bytes; every other one is framed as
/// its representation.
pub proof fn response_framing_is_planned(
    headers: &mut HeaderMap,
    version: Version,
    status: StatusCode,
    metadata: BodyMetadata,
    method: &Method,
    result: Result<BodyMode, EncodeError>,
    same: &mut HeaderMap,
    representation: Result<BodyMode, EncodeError>,
)
    requires
        call_ensures(
            encode::plan_response_framing,
            (headers, version, status, metadata, method),
            result,
        ),
        call_ensures(encode::plan_representation_framing, (same, version, metadata), representation),
        fields::entries(*old(same)) == fields::entries(*old(headers)),
        fields::roomy(fields::entries(*old(headers))),
    ensures
        ({
            let code = status.number();
            let fields = fields::entries(*old(headers));
            let tunnel = method@ == message::method_named("CONNECT") && 200 <= code <= 299;
            let framed = fields::has_name(fields, fields::named("content-length"))
                || fields::has_name(fields, fields::named("transfer-encoding"));
            let describes = method@ == message::method_named("HEAD") || code == 304;
            let bodiless = tunnel || 100 <= code <= 199 || code == 204;
            &&& (bodiless ==> (result is Ok <==> promises(metadata, 0) && !framed))
            &&& (bodiless ==> (result matches Ok(mode) ==> mode == BodyMode::Empty
                && fields::entries(*final(headers)) == fields))
            &&& (bodiless ==> (result matches Err(error) ==> error == EncodeError::BodyForbidden))
            &&& (!bodiless && describes ==> (result is Ok <==> representation is Ok))
            &&& (!bodiless && describes ==> (result matches Ok(mode) ==> mode == BodyMode::Empty
                && fields::entries(*final(headers)) == fields::entries(*final(same))))
            &&& (!bodiless && !describes && code == 205 ==> (result matches Ok(mode) ==> mode
                == BodyMode::Fixed(0) && promises(metadata, 0)))
            &&& (!bodiless && !describes && code == 205 && !promises(metadata, 0)
                ==> result == Err::<BodyMode, _>(EncodeError::BodyForbidden))
            &&& (!bodiless && !describes && code != 205 ==> result == representation && (
            result is Ok ==> fields::entries(*final(headers)) == fields::entries(*final(same))))
        }),
{
}

/// A head that was prepared is written as its start line and one line for each value of
/// its fields, within the limit, and carries its body and its connection on as it is
/// understood.
pub proof fn prepared_requests_are_written(
    method: Method,
    target: Target,
    version: Version,
    headers: HeaderMap,
    metadata: BodyMetadata,
    limits: EncodeLimits,
    memory: Memory,
    result: Result<(EncodedHead, ValidatedRequestHead), EncodeError>,
)
    requires
        call_ensures(
            encode::prepare_request_head_with_memory,
            (method, target, version, headers, metadata, limits, memory),
            result,
        ),
    ensures
        result matches Ok((encoded, understood)) ==> {
            &&& octets::octets(encoded.bytes) == wire::request_line(
                method@,
                target@.text,
                if version == Version::Http11 {
                    1
                } else {
                    0
                },
            ) + wire::field_block(fields::lines(understood@.head.headers)) + seq![
                '\r' as u8,
                '\n' as u8,
            ]
            &&& octets::octets(encoded.bytes).len() <= limits.max_head_bytes
            &&& (version == Version::Http10 || version == Version::Http11)
            &&& encoded.mode == understood@.body
            &&& encoded.persistence == understood@.persistence
            &&& encoded.upgrade is None
            &&& understood@.head.method == method@
            &&& (forall|length: u64| #[trigger]
                promises(metadata, length) <==> encoded.mode == BodyMode::Fixed(length))
            &&& (encoded.mode is Fixed || encoded.mode == BodyMode::Chunked)
            &&& memory != Memory::Refused
        },
{
    if let Ok((encoded, understood)) = result {
        assert(encode::planned_request(
            encode::outgoing_request(method, target, version, headers),
            metadata,
        ) == Ok::<_, EncodeError>(understood@));
    }
}

/// The same of responses, which may also turn the connection into something else.
pub proof fn prepared_responses_are_written(
    status: StatusCode,
    version: Version,
    headers: HeaderMap,
    metadata: BodyMetadata,
    method: &Method,
    limits: EncodeLimits,
    memory: Memory,
    result: Result<(EncodedHead, ValidatedResponseHead), EncodeError>,
)
    requires
        call_ensures(
            encode::prepare_response_head_with_memory,
            (status, version, headers, metadata, method, limits, memory),
            result,
        ),
    ensures
        result matches Ok((encoded, understood)) ==> {
            &&& octets::octets(encoded.bytes) == wire::status_line(
                if version == Version::Http11 {
                    1
                } else {
                    0
                },
                status.number(),
                match start_line::reason_of(status.number()) {
                    Some(reason) => vstd::utf8::encode_utf8(reason),
                    None => Seq::empty(),
                },
            ) + wire::field_block(fields::lines(understood@.head.headers)) + seq![
                '\r' as u8,
                '\n' as u8,
            ]
            &&& octets::octets(encoded.bytes).len() <= limits.max_head_bytes
            &&& (version == Version::Http10 || version == Version::Http11)
            &&& encoded.mode == understood@.body
            &&& encoded.persistence == understood@.persistence
            &&& encoded.upgrade == understood@.upgrade
            &&& (rules_out_body(status.number(), method@) <==> encoded.mode == BodyMode::Empty)
            &&& memory != Memory::Refused
        },
{
}

/// The codings that are understood are the chunked one alone: with another one in front
/// of it a body is not supported, and where the chunked one does not come
/// last, or comes twice, its framing is broken.
pub proof fn other_codings_are_refused(
    coding: Seq<u8>,
    chunked: Seq<u8>,
    ahead: Seq<Seq<u8>>,
    behind: Seq<Seq<u8>>,
    twice: Seq<Seq<u8>>,
    alone: Seq<Seq<u8>>,
)
    requires
        syntax::is_token_text(coding),
        ascii::lowered(coding) != fields::named("chunked"),
        syntax::is_token_text(chunked),
        ascii::lowered(chunked) == fields::named("chunked"),
        values::all_members(ahead) == (seq![coding, chunked], true),
        values::all_members(behind) == (seq![chunked, coding], true),
        values::all_members(twice) == (seq![chunked, chunked], true),
        values::all_members(alone) == (seq![coding], true),
    ensures
        values::transfer_encoding(ahead) == Err::<Option<values::TransferFraming>, _>(
            HeadError::UnsupportedTransferCoding,
        ),
        values::transfer_encoding(behind) == Err::<Option<values::TransferFraming>, _>(
            HeadError::InvalidTransferEncoding,
        ),
        values::transfer_encoding(twice) == Err::<Option<values::TransferFraming>, _>(
            HeadError::InvalidTransferEncoding,
        ),
        values::transfer_encoding(alone) == Err::<Option<values::TransferFraming>, _>(
            HeadError::InvalidTransferEncoding,
        ),
{
    token_is_a_coding(coding);
    token_is_a_coding(chunked);
    reveal_with_fuel(values::codings_from, 4);
    assert(seq![coding, chunked].skip(1) =~= seq![chunked]);
    assert(seq![chunked, coding].skip(1) =~= seq![coding]);
    assert(seq![chunked, chunked].skip(1) =~= seq![chunked]);
    assert(seq![coding].skip(1) =~= Seq::<Seq<u8>>::empty());
    assert(seq![chunked].skip(1) =~= Seq::<Seq<u8>>::empty());
}

proof fn token_is_a_coding(token: Seq<u8>)
    requires
        syntax::is_token_text(token),
    ensures
        values::coding_of(token) == (token, Seq::<u8>::empty()),
        values::parameters_valid(Seq::empty()),
{
    assert(syntax::token_byte(token[0]));
    assert(syntax::token_byte(token[token.len() - 1]));
    syntax::trimmed_keeps(token);
    let semicolon = ';' as u8;
    ascii::position_is_first(token, semicolon);
    let split = ascii::position(token, semicolon);
    if split < token.len() {
        assert(syntax::token_byte(token[split as int]));
    }
    assert(token.take(split as int) =~= token);
    assert(token.skip(split as int) =~= Seq::<u8>::empty());
}

/// A request head is prepared where its framing can be planned, its fields are then
/// understood as planned, and its text fits: nothing else stands in its way.
pub proof fn requests_are_prepared_in_steps(
    method: Method,
    target: Target,
    version: Version,
    headers: HeaderMap,
    metadata: BodyMetadata,
    limits: EncodeLimits,
    result: Result<(EncodedHead, ValidatedRequestHead), EncodeError>,
    planned: &mut HeaderMap,
    mode: Result<BodyMode, EncodeError>,
    sent: RequestHead,
    understood: Result<ValidatedRequestHead, HeadError>,
)
    requires
        call_ensures(
            encode::prepare_request_head_with_memory,
            (method, target, version, headers, metadata, limits, Memory::Granted),
            result,
        ),
        call_ensures(encode::plan_request_framing, (planned, version, metadata), mode),
        call_ensures(RequestHead::validate, (sent,), understood),
        fields::entries(*old(planned)) == fields::entries(headers),
        sent@ == (RequestView {
            method: method@,
            target: target@,
            version,
            headers: fields::entries(*final(planned)),
        }),
        fields::roomy(fields::entries(headers)),
        fields::roomy(fields::entries(*final(planned))),
        !fields::nearly_full(fields::entries(headers)),
    ensures
        mode matches Err(error) ==> result == Err::<(EncodedHead, ValidatedRequestHead), _>(error),
        mode is Ok && understood is Err ==> result is Err,
        mode matches Ok(planned_mode) ==> (understood matches Ok(head) ==> (head.body
            == planned_mode && (version == Version::Http10 || version == Version::Http11) ==> (
        result is Ok <==> wire::request_line(
            method@,
            target@.text,
            if version == Version::Http11 {
                1
            } else {
                0
            },
        ).len() + wire::field_block(fields::lines(head.head@.headers)).len() + 2
            <= limits.max_head_bytes))),
        version != Version::Http10 && version != Version::Http11 ==> result is Err,
{
}

/// The same of responses.
pub proof fn responses_are_prepared_in_steps(
    status: StatusCode,
    version: Version,
    headers: HeaderMap,
    metadata: BodyMetadata,
    method: &Method,
    limits: EncodeLimits,
    result: Result<(EncodedHead, ValidatedResponseHead), EncodeError>,
    planned: &mut HeaderMap,
    mode: Result<BodyMode, EncodeError>,
    sent: ResponseHead,
    understood: Result<ValidatedResponseHead, HeadError>,
)
    requires
        call_ensures(
            encode::prepare_response_head_with_memory,
            (status, version, headers, metadata, method, limits, Memory::Granted),
            result,
        ),
        call_ensures(
            encode::plan_response_framing,
            (planned, version, status, metadata, method),
            mode,
        ),
        call_ensures(ResponseHead::validate, (sent, method), understood),
        fields::entries(*old(planned)) == fields::entries(headers),
        sent@ == (ResponseView {
            version,
            status: status.number(),
            headers: fields::entries(*final(planned)),
        }),
        fields::roomy(fields::entries(headers)),
        !fields::nearly_full(fields::entries(headers)),
    ensures
        mode matches Err(error) ==> result == Err::<(EncodedHead, ValidatedResponseHead), _>(error),
        mode is Ok && understood is Err ==> result is Err,
        mode matches Ok(planned_mode) ==> (understood matches Ok(head) ==> (head.body
            == planned_mode && (version == Version::Http10 || version == Version::Http11) ==> (
        result is Ok <==> wire::status_line(
            if version == Version::Http11 {
                1
            } else {
                0
            },
            status.number(),
            match start_line::reason_of(status.number()) {
                Some(reason) => vstd::utf8::encode_utf8(reason),
                None => Seq::empty(),
            },
        ).len() + wire::field_block(fields::lines(head.head@.headers)).len() + 2
            <= limits.max_head_bytes))),
        version != Version::Http10 && version != Version::Http11 ==> result is Err,
{
}

} // verus!
