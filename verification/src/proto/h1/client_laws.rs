//! What holds of every exchange of a client.

use crate::error::{Error, ErrorKind, Source};
use crate::io::recv::{ReadStatus, RecvBuffer};
use crate::message::{Method, Target, Version};
use crate::outside::fields;
use crate::outside::octets;
use crate::proto::h1::bridge::ReceiveEnd;
use crate::proto::h1::client::{self, Departure, HeadStep, Next, UploadStep};
use crate::proto::h1::codec_laws;
use crate::proto::h1::encode::{
    self, BodyEncoder, BodyMetadata, EncodeConfig, EncodeError, EncodeLimits, EncodedHead, Memory,
};
use crate::proto::h1::exchange::{Exchange, Outcome, Progress, ResponsePhase};
use crate::proto::h1::head::{HeadParser, ResponseRole};
use crate::proto::h1::meaning_laws::{self, held, lists};
use crate::proto::h1::validate::ValidatedRequestHead;
use crate::proto::h1::{BodyMode, Persistence};
use crate::body::TrailerHint;
use http::HeaderMap;
use vstd::prelude::*;

verus! {

/// Whether an encoder has anything to write: payload that it takes, or text with
/// which the body ends.
pub open spec fn owes_bytes(encoder: BodyEncoder) -> bool {
    ||| exists|length: nat| #[trigger] encode::data_conflict(encoder, length) is None
    ||| encode::end_text(encoder.state).len() > 0
}

/// Behind the head of a request its body is sent, for every body mode whose encoder
/// owes bytes: chunks end with the last chunk even where they carry nothing. Only a
/// request without a body goes on to the flush, and only one that waits for
/// permission does neither.
pub proof fn body_follows_the_head(
    departure: &Departure,
    waits: bool,
    step: UploadStep,
    encoder: BodyEncoder,
)
    requires
        call_ensures(client::head_written, (departure, waits), step),
        encoder.state == encode::encoder_state(departure.head.mode),
    ensures
        step == UploadStep::AwaitPermission <==> departure.expects_continue && waits,
        step != UploadStep::AwaitPermission ==> (step == UploadStep::SendBody
            <==> departure.head.mode != BodyMode::Empty),
        step != UploadStep::AwaitPermission ==> (step == UploadStep::Flush <==> departure.head.mode
            == BodyMode::Empty),
        step == UploadStep::Flush ==> !owes_bytes(encoder),
        owes_bytes(encoder) ==> step != UploadStep::Flush,
        departure.head.mode == BodyMode::Chunked && !waits ==> step == UploadStep::SendBody,
{
}

/// A wait for permission that ends leads on as if there had been none, unless it was
/// canceled, which is an error.
pub proof fn permission_leads_on(
    departure: &Departure,
    canceled: bool,
    straight: UploadStep,
    awaited: Result<UploadStep, Error>,
)
    requires
        call_ensures(client::head_written, (departure, false), straight),
        call_ensures(client::permission_awaited, (departure.head.mode, canceled), awaited),
    ensures
        canceled ==> (awaited matches Err(error) && error.kind == ErrorKind::Canceled),
        !canceled ==> awaited == Ok::<UploadStep, Error>(straight),
        !canceled && departure.head.mode != BodyMode::Empty ==> awaited == Ok::<UploadStep, Error>(
            UploadStep::SendBody,
        ),
{
}

proof fn planned_names_differ()
    ensures
        fields::named("expect") != fields::named("content-length"),
        fields::named("expect") != fields::named("transfer-encoding"),
        fields::named("connection") != fields::named("content-length"),
        fields::named("connection") != fields::named("transfer-encoding"),
        fields::named("content-length") != fields::named("transfer-encoding"),
        fields::named("expect") != fields::named("host"),
        fields::named("connection") != fields::named("host"),
{
    reveal_strlit("expect");
    reveal_strlit("connection");
    reveal_strlit("host");
    reveal_strlit("content-length");
    reveal_strlit("transfer-encoding");
    reveal_with_fuel(fields::plain_from, 18);
    fields::plain_text("expect"@);
    fields::plain_text("connection"@);
    fields::plain_text("host"@);
    fields::plain_text("content-length"@);
    fields::plain_text("transfer-encoding"@);
    assert(fields::named("expect").len() == 6);
    assert(fields::named("connection").len() == 10);
    assert(fields::named("host").len() == 4);
    assert(fields::named("content-length").len() == 14);
    assert(fields::named("transfer-encoding").len() == 17);
}

/// Planning the framing of a request changes no field but those that frame it.
pub(crate) proof fn plan_keeps_other_fields(
    headers: Seq<(Seq<u8>, Seq<Seq<u8>>)>,
    version: Version,
    metadata: BodyMetadata,
    name: Seq<u8>,
)
    requires
        name != fields::named("content-length"),
        name != fields::named("transfer-encoding"),
    ensures
        encode::request_plan(headers, version, metadata) matches Ok((planned, _))
            ==> fields::values_of(planned, name) == fields::values_of(headers, name),
        encode::representation_plan(headers, version, metadata) matches Ok((planned, _))
            ==> fields::values_of(planned, name) == fields::values_of(headers, name),
{
    if let Some(length) = encode::known_length(metadata) {
        codec_laws::inserted_is_found(
            headers,
            fields::named("content-length"),
            encode::decimal_digits(length as nat),
            name,
        );
    }
    codec_laws::inserted_is_found(
        headers,
        fields::named("transfer-encoding"),
        encode::chunked_text(),
        name,
    );
}

/// Whether a producer promises exactly so many bytes and no trailers.
pub open spec fn promises(metadata: BodyMetadata, length: u64) -> bool {
    &&& metadata.size.low() == length
    &&& metadata.size.high() == Some(length)
    &&& metadata.trailers == TrailerHint::Absent
}

/// A request that departs is framed by the length of its body where that is known
/// and no trailers may follow, and in chunks otherwise, which takes HTTP/1.1. Its
/// body waits for permission exactly where its fields ask for it and there is a
/// payload. Its head stays within the limit, and its connection lasts as the fields
/// say.
pub proof fn departure_is_framed(
    method: Method,
    target: Target,
    version: Version,
    headers: HeaderMap,
    metadata: BodyMetadata,
    config: EncodeConfig,
    max_informational: usize,
    memory: Memory,
    result: Result<Departure, Error>,
)
    requires
        call_ensures(
            client::depart,
            (method, target, version, headers, metadata, config, max_informational, memory),
            result,
        ),
    ensures
        result matches Ok(departure) ==> {
            &&& forall|length: u64| #[trigger]
                promises(metadata, length) <==> departure.head.mode == BodyMode::Fixed(length)
            &&& departure.head.mode is Fixed || departure.head.mode == BodyMode::Chunked
            &&& departure.head.mode == BodyMode::Chunked ==> version == Version::Http11
            &&& departure.expects_continue <==> version == Version::Http11 && held(
                headers,
                "expect",
            ).len() > 0 && departure.head.mode != BodyMode::Fixed(0)
            &&& octets::octets(departure.head.bytes).len() <= config.max_head_bytes
            &&& departure.head.persistence == Persistence::Reusable <==> !lists(
                held(headers, "connection"),
                "close",
            ) && (version != Version::Http10 || lists(held(headers, "connection"), "keep-alive"))
            &&& departure.exchange@.persistence == departure.head.persistence
            &&& departure.exchange@.phase == ResponsePhase::AwaitingHead
            &&& departure.exchange@.request == Progress::Active
            &&& departure.exchange@.response == Progress::Active
            &&& !departure.exchange@.failed
            &&& departure.exchange@.method == method@
            &&& departure.exchange@.informational == 0
            &&& departure.exchange@.max_informational == max_informational
            &&& departure.exchange@.waiting_continue <==> version == Version::Http11 && held(
                headers,
                "expect",
            ).len() > 0
        },
{
    if let Ok(departure) = result {
        let head = encode::outgoing_request(method, target, version, headers);
        let (planned, mode) = encode::request_plan(head.headers, version, metadata)->Ok_0;
        let sent = crate::proto::h1::head::RequestView { headers: planned, ..head };
        planned_names_differ();
        plan_keeps_other_fields(head.headers, version, metadata, fields::named("expect"));
        plan_keeps_other_fields(head.headers, version, metadata, fields::named("connection"));
        if let Some((authority, _)) = head.target.authority {
            let host = fields::named("host");
            codec_laws::inserted_is_found(planned, host, authority, fields::named("expect"));
            codec_laws::inserted_is_found(planned, host, authority, fields::named("connection"));
        }
        meaning_laws::connection_is_listed(held(headers, "connection"));
        meaning_laws::values_have_members(held(headers, "expect"));
        assert(encode::planned_request(head, metadata) is Ok);
        assert(mode == departure.head.mode);
    }
}

/// An informational response is told from the final one by its status, and permits
/// the body exactly with the status for that. Input is taken for a whole head only,
/// and not behind it.
pub proof fn responses_are_told_apart(
    parser: &mut HeadParser<ResponseRole>,
    buffer: &mut RecvBuffer,
    exchange: &mut Exchange,
    expired: bool,
    result: Result<HeadStep, Error>,
)
    requires
        call_ensures(client::await_head, (parser, buffer, exchange, expired), result),
    ensures
        expired ==> (result matches Err(error) && error.kind == ErrorKind::Timeout) && final(buffer)@ == old(buffer)@ && final(exchange)@ == old(exchange)@,
        result matches Ok(HeadStep::Read) ==> final(buffer)@ == old(buffer)@ && final(exchange)@
            == old(exchange)@,
        result matches Ok(HeadStep::Informational { head, permits }) ==> {
            &&& 100 <= head@.head.status <= 199
            &&& head@.head.status != 101
            &&& permits <==> head@.head.status == 100
            &&& final(exchange)@.phase == ResponsePhase::AwaitingHead
            &&& final(exchange)@.informational == old(exchange)@.informational + 1
            &&& permits ==> !final(exchange)@.waiting_continue
            &&& !permits ==> final(exchange)@.waiting_continue == old(exchange)@.waiting_continue
            &&& final(exchange)@.persistence == old(exchange)@.persistence
        },
        result matches Ok(HeadStep::Final { head }) ==> {
            &&& head@.head.status >= 200 || head@.head.status == 101 || head@.head.status < 100
            &&& final(exchange)@.phase != ResponsePhase::AwaitingHead
            &&& !final(exchange)@.waiting_continue
            &&& final(exchange)@.informational == old(exchange)@.informational
        },
        !(result matches Ok(HeadStep::Read)) && final(buffer)@ != old(buffer)@ ==> exists|
            length: nat,
        |
            0 <= length <= old(buffer)@.len() && #[trigger] old(buffer)@.skip(length as int)
                == final(buffer)@,
{
    let input = crate::proto::h1::head::bounded(old(buffer)@, old(parser).limits);
    crate::proto::h1::scan::found_in_longer(input, Seq::empty());
}

/// The end of the connection is an error wherever a response is awaited: the
/// connection was closed where nothing of the head has come, and broke off where
/// some of it has. Any other read leads on.
pub proof fn missing_response_is_an_error(
    result: Result<ReadStatus, Error>,
    empty: bool,
    read: Result<(), Error>,
)
    requires
        call_ensures(client::head_read, (result, empty), read),
    ensures
        read is Ok <==> result matches Ok(ReadStatus::Data(_)),
        result matches Err(error) ==> read == Err::<(), _>(error),
        result matches Ok(ReadStatus::Eof) ==> (read matches Err(error) && error.kind == (
        if empty {
            ErrorKind::Closed
        } else {
            ErrorKind::InvalidMessage
        })),
{
}

/// A response counts as observed where its observer took it in time.
pub proof fn observation_is_in_time(taken: bool, elapsed: bool, result: Result<(), Error>)
    requires
        call_ensures(client::observed, (taken, elapsed), result),
    ensures
        result is Ok <==> taken && !elapsed,
        elapsed ==> (result matches Err(error) && error.kind == ErrorKind::Timeout),
        !elapsed && !taken ==> (result matches Err(error) && error.kind == ErrorKind::Canceled),
{
}

/// Only a failure of the body is a failure of receiving it.
pub proof fn receiving_fails_with_the_body(end: ReceiveEnd, result: Result<ReceiveEnd, Error>)
    requires
        call_ensures(client::received, (end,), result),
    ensures
        end matches ReceiveEnd::Failed(error) <==> result is Err,
        end matches ReceiveEnd::Failed(error) ==> result == Err::<ReceiveEnd, _>(error),
        result matches Ok(kept) ==> kept == end,
{
}

/// An upload goes on exactly as long as the response is wanted and may still come
/// whole; receiving goes on beside an upload that is complete, or that its owner
/// gave up.
pub proof fn directions_stop_each_other(
    received: &Result<ReceiveEnd, Error>,
    sent: &Result<(), Error>,
    aborted: bool,
    upload: bool,
    receiving: bool,
)
    requires
        call_ensures(client::stops_upload, (received,), upload),
        call_ensures(client::stops_receiving, (sent, aborted), receiving),
    ensures
        received matches Ok(ReceiveEnd::Complete) ==> !upload,
        received matches Ok(ReceiveEnd::Abandoned) ==> upload,
        received is Err ==> upload,
        sent is Ok ==> !receiving,
        sent is Err && !aborted ==> receiving,
        sent matches Err(error) && error.kind != ErrorKind::Canceled ==> receiving,
        sent matches Err(error) && error.kind == ErrorKind::Canceled && aborted ==> !receiving,
{
}

/// An exchange whose response was received whole and whose request was sent whole
/// ends as its response says: the connection is handed over, used again or closed.
/// Where nothing failed but the response was given up, or the request was by its
/// owner, it is closed. Failures are reported.
pub proof fn exchange_ends_as_agreed(
    exchange: Exchange,
    received: Result<ReceiveEnd, Error>,
    sent: Result<(), Error>,
    aborted: bool,
    result: Result<Outcome, Error>,
)
    requires
        call_ensures(client::conclude, (exchange, received, sent, aborted), result),
        exchange@.wf(),
        !exchange@.failed,
        exchange@.request == Progress::Active,
        exchange@.response == Progress::Active,
    ensures
        received matches Ok(ReceiveEnd::Complete) && sent is Ok && !aborted ==> match
            exchange@.phase {
            ResponsePhase::Upgrade(kind) => result == Ok::<Outcome, Error>(Outcome::Handoff(kind)),
            ResponsePhase::Final => result == Ok::<Outcome, Error>(
                if exchange@.persistence == Persistence::Reusable {
                    Outcome::Reusable
                } else {
                    Outcome::Close
                },
            ),
            ResponsePhase::AwaitingHead => result is Err,
        },
        exchange@.phase != ResponsePhase::AwaitingHead && aborted && (received matches Ok(
            ReceiveEnd::Complete,
        )) && (sent matches Err(error) ==> error.kind == ErrorKind::Canceled) ==> result == Ok::<
            Outcome,
            Error,
        >(Outcome::Close),
        received matches Ok(ReceiveEnd::Abandoned) && (sent matches Err(error) ==> error.kind
            == ErrorKind::Canceled) ==> result == Ok::<Outcome, Error>(Outcome::Close),
        received is Err && sent is Ok ==> result == Err::<Outcome, _>(received->Err_0),
        received matches Ok(ReceiveEnd::Failed(error)) ==> result == Err::<Outcome, _>(error),
        received is Ok && !(received matches Ok(ReceiveEnd::Failed(_))) && (sent matches Err(error)
            && error.kind != ErrorKind::Canceled) ==> result == Err::<Outcome, _>(sent->Err_0),
        received is Err && sent is Err ==> result == Err::<Outcome, _>(received->Err_0) || result
            == Err::<Outcome, _>(sent->Err_0),
        received matches Ok(ReceiveEnd::Complete) && sent is Err && !aborted ==> result == Err::<
            Outcome,
            _,
        >(sent->Err_0),
{
}

/// The next request is let in behind an exchange that leaves the connection usable
/// and no input, unless the connection is stopping. Input that is left behind is an
/// error. A handoff is carried out whatever is left.
pub proof fn next_request_needs_a_clean_connection(
    outcome: Outcome,
    leftover: bool,
    stopping: bool,
    result: Result<Next, Error>,
)
    requires
        call_ensures(client::after_exchange, (outcome, leftover, stopping), result),
    ensures
        result == Ok::<Next, Error>(Next::Release) <==> outcome == Outcome::Reusable && !leftover
            && !stopping,
        outcome matches Outcome::Handoff(kind) ==> result == Ok::<Next, Error>(Next::Handoff(kind)),
        result matches Ok(Next::Handoff(kind)) ==> outcome == Outcome::Handoff(kind),
        outcome == Outcome::Close ==> result == Ok::<Next, Error>(Next::Shutdown),
        outcome == Outcome::Reusable && leftover ==> (result matches Err(error) && error.kind
            == ErrorKind::InvalidMessage),
        outcome == Outcome::Reusable && !leftover && stopping ==> result == Ok::<Next, Error>(
            Next::Shutdown,
        ),
        outcome == Outcome::Active ==> (result matches Err(error) && error.kind
            == ErrorKind::Internal),
{
}

/// An observer that still waits is told the error that the exchange ends with.
pub proof fn observer_learns_the_failure(
    error: Error,
    observed: bool,
    result: (Error, Option<Error>),
)
    requires
        call_ensures(client::report_failure, (error, observed), result),
    ensures
        result.0 == error,
        observed <==> result.1 is Some,
        result.1 matches Some(told) ==> told == error,
{
}

/// A request departs where its head can be prepared: nothing else stands in its way,
/// and a refusal is the one of its head.
pub proof fn prepared_requests_depart(
    method: Method,
    target: Target,
    version: Version,
    headers: HeaderMap,
    metadata: BodyMetadata,
    config: EncodeConfig,
    max_informational: usize,
    result: Result<Departure, Error>,
    limits: EncodeLimits,
    prepared: Result<(EncodedHead, ValidatedRequestHead), EncodeError>,
)
    requires
        call_ensures(
            client::depart,
            (
                method,
                target,
                version,
                headers,
                metadata,
                config,
                max_informational,
                Memory::Granted,
            ),
            result,
        ),
        call_ensures(EncodeConfig::limits, (&config,), limits),
        call_ensures(
            encode::prepare_request_head_with_memory,
            (method, target, version, headers, metadata, limits, Memory::Granted),
            prepared,
        ),
        !fields::nearly_full(fields::entries(headers)),
    ensures
        result is Ok <==> prepared is Ok,
        result matches Ok(departure) ==> (prepared matches Ok((head, _)) && departure.head.mode
            == head.mode && octets::octets(departure.head.bytes) == octets::octets(head.bytes)),
        prepared matches Err(refusal) ==> (result matches Err(error) && error.source == Some(
            Source::Encode(refusal),
        )),
        limits.max_head_bytes == config.max_head_bytes,
        limits.max_trailer_bytes == config.max_trailer_bytes,
{
}

/// A response head that has not ended is waited for as long as it fits its limit, and
/// refused where it does not; neither uses up input nor changes the exchange.
pub proof fn unended_responses_are_bounded(
    parser: &mut HeadParser<ResponseRole>,
    buffer: &mut RecvBuffer,
    exchange: &mut Exchange,
    result: Result<HeadStep, Error>,
)
    requires
        call_ensures(client::await_head, (parser, buffer, exchange, false), result),
        forall|i: int| 0 <= i < old(buffer)@.len() ==> #[trigger] old(buffer)@[i] != '\n' as u8,
    ensures
        old(buffer)@.len() > old(parser).limits.max_bytes ==> (result matches Err(error)
            && error.kind == ErrorKind::Limit),
        old(buffer)@.len() <= old(parser).limits.max_bytes ==> (result matches Ok(HeadStep::Read)),
        *final(buffer) == *old(buffer),
        final(exchange)@ == old(exchange)@,
        final(parser).limits == old(parser).limits,
{
    let input = crate::proto::h1::head::bounded(old(buffer)@, old(parser).limits);
    crate::proto::h1::scan::head_ends_with_its_line(input);
    assert forall|i: int| 0 <= i < input.len() implies #[trigger] input[i] == old(buffer)@[i] by {}
}

} // verus!
