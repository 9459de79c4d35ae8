//! What holds of every exchange of a server.

use crate::body::pipe::DemandError;
use crate::error::{self, Error, ErrorKind, Payload, Source};
use crate::io::recv::{ReadStatus, RecvBuffer};
use crate::message::{self, Method, StatusCode, Version};
use crate::outside::date;
use crate::outside::fields;
use crate::outside::octets;
use crate::proto::h1::bridge::{ReceiveAction, ReceiveEnd, Told};
use crate::proto::h1::client_laws;
use crate::proto::h1::codec_laws;
use crate::proto::h1::encode::{
    self, BodyEncoder, BodyMetadata, EncodeConfig, EncodeError, EncodeLimits, EncodedHead, Memory,
};
use crate::proto::h1::exchange::{Exchange, HeadAction, Outcome, Progress, ResponsePhase};
use crate::proto::h1::head::{HeadParser, RequestRole, ResponseView};
use crate::proto::h1::meaning_laws::{self, held, lists};
use crate::proto::h1::server::{
    self, Answer, Command, DateCache, Directive, HeadStep, Idle, InformationalAction,
    InformationalWriter, Next, Reply, ServerExchange, Work,
};
use crate::proto::h1::text_laws;
use crate::proto::h1::validate::{ValidatedRequestHead, ValidatedResponseHead};
use crate::proto::h1::values;
use crate::proto::h1::{BodyMode, Expectation, Persistence};
use http::{HeaderMap, HeaderValue};
use vstd::prelude::*;

verus! {

/// An appended value comes behind the others of its name, the other fields keep
/// theirs, and no name is lost or gained but that one.
pub proof fn appended_is_found(
    held: Seq<(Seq<u8>, Seq<Seq<u8>>)>,
    name: Seq<u8>,
    value: Seq<u8>,
    other: Seq<u8>,
)
    ensures
        fields::values_of(fields::appended(held, name, value), name) == fields::values_of(
            held,
            name,
        ).push(value),
        other != name ==> fields::values_of(fields::appended(held, name, value), other)
            == fields::values_of(held, other),
        other != name ==> fields::has_name(fields::appended(held, name, value), other)
            == fields::has_name(held, other),
    decreases held.len(),
{
    let after = fields::appended(held, name, value);
    reveal_with_fuel(fields::values_of, 2);
    if held.len() == 0 {
        assert(after[0] == (name, seq![value]));
        assert(after.skip(1) =~= Seq::empty());
        assert(seq![value] =~= Seq::<Seq<u8>>::empty().push(value));
    } else {
        name_is_here_or_later(held, other);
        name_is_here_or_later(after, other);
        if held[0].0 == name {
            assert(after[0] == (name, held[0].1.push(value)));
            assert(after.skip(1) =~= held.skip(1));
        } else {
            appended_is_found(held.skip(1), name, value, other);
            assert(after[0] == held[0]);
            assert(after.skip(1) =~= fields::appended(held.skip(1), name, value));
        }
    }
}

proof fn name_is_here_or_later(held: Seq<(Seq<u8>, Seq<Seq<u8>>)>, name: Seq<u8>)
    requires
        held.len() > 0,
    ensures
        fields::has_name(held, name) <==> held[0].0 == name || fields::has_name(held.skip(1), name),
{
    let rest = held.skip(1);
    if fields::has_name(held, name) {
        let i = choose|i: int| 0 <= i < held.len() && (#[trigger] held[i]).0 == name;
        if i > 0 {
            assert(rest[i - 1] == held[i]);
        }
    }
    if fields::has_name(rest, name) {
        let i = choose|i: int| 0 <= i < rest.len() && (#[trigger] rest[i]).0 == name;
        assert(held[i + 1] == rest[i]);
    }
}

proof fn added_names_differ()
    ensures
        fields::named("date") != fields::named("connection"),
        fields::named("date") != fields::named("content-length"),
        fields::named("date") != fields::named("transfer-encoding"),
        fields::named("connection") != fields::named("content-length"),
        fields::named("connection") != fields::named("transfer-encoding"),
{
    reveal_strlit("date");
    reveal_strlit("connection");
    reveal_strlit("content-length");
    reveal_strlit("transfer-encoding");
    reveal_with_fuel(fields::plain_from, 18);
    fields::plain_text("date"@);
    fields::plain_text("connection"@);
    fields::plain_text("content-length"@);
    fields::plain_text("transfer-encoding"@);
    assert(fields::named("date").len() == 4);
    assert(fields::named("connection").len() == 10);
    assert(fields::named("content-length").len() == 14);
    assert(fields::named("transfer-encoding").len() == 17);
}

proof fn response_plan_keeps_other_fields(
    head: ResponseView,
    metadata: BodyMetadata,
    method: Seq<u8>,
    name: Seq<u8>,
)
    requires
        name != fields::named("content-length"),
        name != fields::named("transfer-encoding"),
    ensures
        encode::planned_response(head, metadata, method) matches Ok(meaning) ==> {
            &&& fields::values_of(meaning.head.headers, name) == fields::values_of(
                head.headers,
                name,
            )
            &&& meaning.head.version == head.version
            &&& meaning.head.status == head.status
        },
{
    client_laws::plan_keeps_other_fields(head.headers, head.version, metadata, name);
    codec_laws::inserted_is_found(
        head.headers,
        fields::named("content-length"),
        encode::decimal_digits(0),
        name,
    );
}

/// Whether a date field is that of an answer: the one it has, and where it has none
/// the one that is given.
pub open spec fn dated(
    sent: Seq<Seq<u8>>,
    answer: Seq<(Seq<u8>, Seq<Seq<u8>>)>,
    date: Option<HeaderValue>,
) -> bool {
    match date {
        Some(value) => if fields::has_name(answer, fields::named("date")) {
            sent == fields::values_of(answer, fields::named("date"))
        } else {
            sent == seq![fields::value_text(value)]
        },
        None => sent == fields::values_of(answer, fields::named("date")),
    }
}

/// Whether a response head is one that an answer was written as: in the version of
/// the peer, with the status of the answer, with a date where one is given, whether
/// the connection closes or not, and with the option that closes it exactly where it
/// does.
pub open spec fn written_as(
    sent: ResponseView,
    answer: Answer,
    request: Version,
    close: bool,
    date: Option<HeaderValue>,
) -> bool {
    let given = fields::entries(answer.headers);
    &&& sent.status == answer.status.number()
    &&& sent.version == (if request == Version::Http10 {
        Version::Http10
    } else {
        answer.version
    })
    &&& dated(fields::values_of(sent.headers, fields::named("date")), given, date)
    &&& fields::values_of(sent.headers, fields::named("connection")) == (if close {
        fields::values_of(given, fields::named("connection")).push(
            vstd::utf8::encode_utf8("close"@),
        )
    } else {
        fields::values_of(given, fields::named("connection"))
    })
    &&& forall|name: Seq<u8>|
        name != fields::named("date") && name != fields::named("connection") && name
            != fields::named("content-length") && name != fields::named("transfer-encoding")
            ==> #[trigger] fields::values_of(sent.headers, name) == fields::values_of(given, name)
}

proof fn connection_fields_are_added(
    given: Seq<(Seq<u8>, Seq<Seq<u8>>)>,
    close: bool,
    date: Option<HeaderValue>,
)
    ensures
        ({
            let added = server::with_connection_fields(given, close, server::date_value(date));
            &&& dated(fields::values_of(added, fields::named("date")), given, date)
            &&& fields::values_of(added, fields::named("connection")) == (if close {
                fields::values_of(given, fields::named("connection")).push(
                    vstd::utf8::encode_utf8("close"@),
                )
            } else {
                fields::values_of(given, fields::named("connection"))
            })
            &&& forall|name: Seq<u8>|
                name != fields::named("date") && name != fields::named("connection")
                    ==> #[trigger] fields::values_of(added, name) == fields::values_of(given, name)
        }),
{
    let names = fields::named("date");
    let connection = fields::named("connection");
    let closing = if close {
        fields::appended(given, connection, fields::close_text())
    } else {
        given
    };
    let added = server::with_connection_fields(given, close, server::date_value(date));
    added_names_differ();
    appended_is_found(given, connection, fields::close_text(), names);
    if let Some(value) = date {
        codec_laws::inserted_is_found(closing, names, fields::value_text(value), connection);
    }
    assert forall|name: Seq<u8>| name != names && name != connection implies
        #[trigger] fields::values_of(added, name) == fields::values_of(given, name) by {
        appended_is_found(given, connection, fields::close_text(), name);
        if let Some(value) = date {
            codec_laws::inserted_is_found(closing, names, fields::value_text(value), name);
        }
    }
}

/// A response that is sent has the date that is given where its answer has none,
/// whether the connection is kept or not; it says that the connection closes exactly
/// where it does; it is written in the version of the peer; and it keeps the other
/// fields of its answer.
pub proof fn reply_is_dated_and_closed(
    answer: Answer,
    method: &Method,
    request: Version,
    close: bool,
    date: Option<HeaderValue>,
    config: &EncodeConfig,
    exchange: &mut Exchange,
    memory: Memory,
    result: Result<Reply, Error>,
)
    requires
        call_ensures(
            server::reply,
            (answer, method, request, close, date, config, exchange, memory),
            result,
        ),
    ensures
        result matches Ok(reply) ==> exists|sent: ResponseView|
            octets::octets(reply.head.bytes) == #[trigger] encode::response_bytes(sent)
                && written_as(sent, answer, request, close, date),
        result matches Ok(reply) ==> octets::octets(reply.head.bytes).len()
            <= config.max_head_bytes,
        100 <= answer.status.number() <= 199 && answer.status.number() != 101 ==> (result matches Err(
            error,
        ) && error.kind == ErrorKind::Unsupported) && final(exchange)@ == old(exchange)@,
{
    if let Ok(reply) = result {
        let given = fields::entries(answer.headers);
        let head = server::answered(answer, request, close, server::date_value(date));
        let meaning = encode::planned_response(head, answer.metadata, method@)->Ok_0;
        let sent = meaning.head;
        added_names_differ();
        connection_fields_are_added(given, close, date);
        response_plan_keeps_other_fields(
            head,
            answer.metadata,
            method@,
            fields::named("date"),
        );
        response_plan_keeps_other_fields(
            head,
            answer.metadata,
            method@,
            fields::named("connection"),
        );
        assert forall|name: Seq<u8>|
            name != fields::named("date") && name != fields::named("connection") && name
                != fields::named("content-length") && name != fields::named("transfer-encoding") implies
            #[trigger] fields::values_of(sent.headers, name) == fields::values_of(given, name) by {
            response_plan_keeps_other_fields(head, answer.metadata, method@, name);
        }
        assert(octets::octets(reply.head.bytes) == encode::response_bytes(sent));
        assert(written_as(sent, answer, request, close, date));
    }
}

proof fn members_are_joined(first: Seq<Seq<u8>>, last: Seq<u8>)
    requires
        values::all_members(first).1,
    ensures
        values::all_members(first.push(last)) == (
            values::all_members(first).0 + values::members(last).0,
            values::members(last).1,
        ),
    decreases first.len(),
{
    let all = first.push(last);
    if first.len() == 0 {
        assert(all[0] == last);
        assert(all.skip(1) =~= Seq::empty());
        reveal_with_fuel(values::all_members, 2);
        assert(values::members(last).0 + Seq::<Seq<u8>>::empty() =~= values::members(last).0);
        assert(Seq::<Seq<u8>>::empty() + values::members(last).0 =~= values::members(last).0);
    } else {
        let rest = first.skip(1);
        assert(all[0] == first[0]);
        assert(all.skip(1) =~= rest.push(last));
        members_are_joined(rest, last);
        assert(values::members(first[0]).0 + (values::all_members(rest).0 + values::members(
            last,
        ).0) =~= values::all_members(first).0 + values::members(last).0);
    }
}

proof fn failed_lists_stay_failed(first: Seq<Seq<u8>>, last: Seq<u8>)
    requires
        !values::all_members(first).1,
    ensures
        !values::all_members(first.push(last)).1,
    decreases first.len(),
{
    let all = first.push(last);
    if first.len() > 0 {
        assert(all[0] == first[0]);
        assert(all.skip(1) =~= first.skip(1).push(last));
        if values::members(first[0]).1 {
            failed_lists_stay_failed(first.skip(1), last);
        }
    }
}

proof fn added_option_closes(options: Seq<Seq<u8>>)
    ensures
        values::all_members(options.push(vstd::utf8::encode_utf8("close"@))).1 ==> lists(
            options.push(vstd::utf8::encode_utf8("close"@)),
            "close",
        ),
{
    let text = vstd::utf8::encode_utf8("close"@);
    let all = options.push(text);
    reveal_strlit("close");
    reveal_with_fuel(fields::plain_from, 6);
    fields::plain_text("close"@);
    assert(text.len() == 5);
    assert forall|i: int| 0 <= i < text.len() implies #[trigger] text[i] != ',' as u8 && text[i]
        != '"' as u8 && !text_laws::blank(text[i]) by {
        assert(crate::proto::h1::syntax::token_byte(text[i]));
    }
    if values::all_members(options).1 {
        members_are_joined(options, text);
        let one = seq![text];
        assert(text_laws::listed(one) == text);
        text_laws::list_gives_members_back(one);
        let listed = values::all_members(all).0;
        let last = listed.len() - 1;
        assert(listed[last] == text);
        crate::proto::h1::syntax::trimmed_keeps(text);
    } else {
        failed_lists_stay_failed(options, text);
    }
}

/// A connection that is closed behind a response is never used again: the response
/// says so, and so does what is kept of it. A response that has a body of unknown
/// length and may not come in chunks closes it too.
pub proof fn closing_reply_closes(
    answer: Answer,
    method: &Method,
    request: Version,
    close: bool,
    date: Option<HeaderValue>,
    config: &EncodeConfig,
    exchange: &mut Exchange,
    memory: Memory,
    result: Result<Reply, Error>,
)
    requires
        call_ensures(
            server::reply,
            (answer, method, request, close, date, config, exchange, memory),
            result,
        ),
    ensures
        result matches Ok(reply) ==> {
            let version = if request == Version::Http10 {
                Version::Http10
            } else {
                answer.version
            };
            let options = held(answer.headers, "connection");
            &&& close ==> reply.head.persistence == Persistence::Close && reply.head.upgrade is None
            &&& reply.head.mode == BodyMode::UntilEof ==> reply.head.persistence
                == Persistence::Close
            &&& version == Version::Http10 && !lists(options, "keep-alive") && !close
                ==> reply.head.persistence == Persistence::Close
            &&& !close && lists(options, "close") ==> reply.head.persistence == Persistence::Close
            &&& !close && !lists(options, "close") && reply.head.mode != BodyMode::UntilEof && (
            version != Version::Http10 || lists(options, "keep-alive")) ==> reply.head.persistence
                == Persistence::Reusable
            &&& reply.head.upgrade is None ==> final(exchange)@.phase == ResponsePhase::Final
            &&& reply.head.upgrade is None && reply.head.persistence == Persistence::Close ==> final(
                exchange
            )@.persistence == Persistence::Close
            &&& reply.head.upgrade matches Some(kind) ==> final(exchange)@.phase
                == ResponsePhase::Upgrade(kind) && old(exchange)@.upgrade == Some(kind)
            &&& !old(exchange)@.failed && old(exchange)@.phase == ResponsePhase::AwaitingHead
        },
{
    if let Ok(reply) = result {
        let given = fields::entries(answer.headers);
        let options = held(answer.headers, "connection");
        let head = server::answered(answer, request, close, server::date_value(date));
        let meaning = encode::planned_response(head, answer.metadata, method@)->Ok_0;
        added_names_differ();
        connection_fields_are_added(given, close, date);
        response_plan_keeps_other_fields(
            head,
            answer.metadata,
            method@,
            fields::named("connection"),
        );
        let sent = fields::values_of(meaning.head.headers, fields::named("connection"));
        meaning_laws::connection_is_listed(sent);
        meaning_laws::connection_is_listed(options);
        added_option_closes(options);
    }
}

/// A response is framed by the length of its body where that is known and no
/// trailers may follow, in chunks where its version has them, and by the end of the
/// connection otherwise. One that cannot have a body has none, and one that resets
/// the view of its client has one of no bytes.
pub proof fn reply_is_framed(
    answer: Answer,
    method: &Method,
    request: Version,
    close: bool,
    date: Option<HeaderValue>,
    config: &EncodeConfig,
    exchange: &mut Exchange,
    memory: Memory,
    result: Result<Reply, Error>,
)
    requires
        call_ensures(
            server::reply,
            (answer, method, request, close, date, config, exchange, memory),
            result,
        ),
    ensures
        result matches Ok(reply) ==> {
            let version = if request == Version::Http10 {
                Version::Http10
            } else {
                answer.version
            };
            let status = answer.status.number();
            &&& meaning_laws::rules_out_body(status, method@) <==> reply.head.mode
                == BodyMode::Empty
            &&& !meaning_laws::rules_out_body(status, method@) && status == 205 ==> reply.head.mode
                == BodyMode::Fixed(0)
            &&& !meaning_laws::rules_out_body(status, method@) && status != 205 ==> {
                &&& forall|length: u64| #[trigger]
                    client_laws::promises(answer.metadata, length) <==> reply.head.mode
                        == BodyMode::Fixed(length)
                &&& reply.head.mode == BodyMode::Chunked ==> version == Version::Http11
                &&& reply.head.mode == BodyMode::UntilEof ==> version != Version::Http11
            }
            &&& status == 204 || (status == 205 && method@ != message::method_named("HEAD")) || (
            method@ == message::method_named("CONNECT")
                && 200 <= status <= 299) ==> client_laws::promises(answer.metadata, 0)
        },
{
    if let Ok(reply) = result {
        let head = server::answered(answer, request, close, server::date_value(date));
        let plan = encode::response_plan(
            head.headers,
            head.version,
            head.status,
            answer.metadata,
            method@,
        );
        assert(plan is Ok);
        assert(reply.head.mode == (plan->Ok_0).1);
        if head.status == 205 {
            head_is_not_connect();
        }
    }
}

proof fn head_is_not_connect()
    ensures
        message::method_named("HEAD") != message::method_named("CONNECT"),
{
    reveal_strlit("HEAD");
    reveal_strlit("CONNECT");
    assert(vstd::utf8::is_ascii_chars("HEAD"@));
    assert(vstd::utf8::is_ascii_chars("CONNECT"@));
    vstd::utf8::is_ascii_chars_encode_utf8("HEAD"@);
    vstd::utf8::is_ascii_chars_encode_utf8("CONNECT"@);
}

/// A request is served from a whole head at the start of the input, and the next
/// one starts right behind it. A deadline that has passed comes first.
pub proof fn requests_are_served_one_by_one(
    parser: &mut HeadParser<RequestRole>,
    buffer: &mut RecvBuffer,
    expired: bool,
    result: Result<HeadStep, Error>,
)
    requires
        call_ensures(server::await_head, (parser, buffer, expired), result),
    ensures
        expired ==> (result matches Err(error) && error.kind == ErrorKind::Timeout) && final(buffer)@
            == old(buffer)@,
        result matches Ok(HeadStep::Read) ==> final(buffer)@ == old(buffer)@,
        result matches Ok(HeadStep::Serve(request)) ==> {
            &&& exists|length: nat|
                0 < length <= old(buffer)@.len() && length <= old(parser).limits.max_bytes
                    && old(buffer)@[length - 1] == '\n' as u8 && #[trigger] old(buffer)@.skip(
                    length as int,
                ) == final(buffer)@
            &&& request.body != BodyMode::UntilEof
            &&& request.body == BodyMode::Empty <==> held(
                request.head.headers,
                "content-length",
            ).len() == 0 && held(request.head.headers, "transfer-encoding").len() == 0
        },
{
    if let Ok(HeadStep::Serve(request)) = result {
        let input = crate::proto::h1::head::bounded(old(buffer)@, old(parser).limits);
        crate::proto::h1::scan::found_in_longer(input, Seq::empty());
        crate::proto::h1::scan::head_ends_with_its_line(input);
        let length = crate::proto::h1::scan::head_end(input)->0;
        assert(input[length - 1] == old(buffer)@[length - 1]);
        assert(old(buffer)@.skip(length as int) == final(buffer)@);
        meaning_laws::framing_is_declared(fields::entries(request.head.headers), request.head.version);
    }
}

/// Between requests the connection may end; inside a head it may not.
pub proof fn idle_connection_may_end(
    result: Result<ReadStatus, Error>,
    empty: bool,
    read: Result<Idle, Error>,
    stopped: Result<Idle, Error>,
)
    requires
        call_ensures(server::head_read, (result, empty), read),
        call_ensures(server::idle_read_stopped, (result,), stopped),
    ensures
        result matches Ok(ReadStatus::Data(_)) ==> read == Ok::<Idle, Error>(Idle::Look),
        result matches Ok(ReadStatus::Eof) && empty ==> read == Ok::<Idle, Error>(Idle::Shutdown),
        (result matches Ok(ReadStatus::Eof)) && !empty ==> (read matches Err(error) && error.kind
            == ErrorKind::InvalidMessage),
        result matches Err(error) ==> read == Err::<Idle, _>(error),
        result is Ok ==> stopped == Ok::<Idle, Error>(Idle::Shutdown),
        result matches Err(error) ==> stopped == (if error.kind == ErrorKind::Canceled {
            Ok::<Idle, Error>(Idle::Shutdown)
        } else {
            Err(error)
        }),
{
}

/// A client is told to send its body exactly where it waits for that, which only one
/// of HTTP/1.1 does, and only once the body was asked for. Nothing is received where
/// nobody asks, and a failure to tell the client is a failure to receive.
pub proof fn permission_is_sent_on_demand(
    head: &ValidatedRequestHead,
    awaits: bool,
    demand: Option<Result<(), DemandError>>,
    demanded: Option<ReceiveAction>,
    permission: Option<Result<(), Error>>,
    permitted: Option<ReceiveAction>,
)
    requires
        call_ensures(server::awaits_permission, (head,), awaits),
        call_ensures(server::body_demanded, (demand,), demanded),
        call_ensures(server::permission_sent, (permission,), permitted),
    ensures
        awaits <==> head.expectation == Expectation::Continue && head.head.version
            == Version::Http11,
        demanded is None <==> demand matches Some(Ok(())),
        demand matches Some(Err(_)) ==> (demanded matches Some(ReceiveAction::End { end, told })
            && end == ReceiveEnd::Abandoned && told == Told::Nothing),
        demand is None ==> (demanded matches Some(
            ReceiveAction::End { end: ReceiveEnd::Failed(error), told: Told::Fail(same) },
        ) && error.kind == ErrorKind::Canceled && same.kind == ErrorKind::Canceled),
        permitted is None <==> permission matches Some(Ok(())),
        permission matches Some(Err(cause)) ==> (permitted matches Some(
            ReceiveAction::End { end: ReceiveEnd::Failed(error), told: Told::Fail(same) },
        ) && error == cause && same == cause),
        permission is None ==> (permitted matches Some(
            ReceiveAction::End { end: ReceiveEnd::Failed(error), told: Told::Fail(same) },
        ) && error.kind == ErrorKind::Canceled && same.kind == ErrorKind::Canceled),
{
}

/// The first failure of an exchange is the one that is kept, whichever part of it
/// fails. A request body that failed keeps a response from being started, and stops
/// what runs; nothing else does.
pub proof fn first_failure_is_kept(
    exchange: &mut ServerExchange,
    end: ReceiveEnd,
    directive: Directive,
)
    requires
        call_ensures(ServerExchange::receive_ended, (exchange, end), directive),
        old(exchange)@.wf(),
    ensures
        final(exchange)@.close == old(exchange)@.close,
        final(exchange)@.exchange == old(exchange)@.exchange,
        old(exchange)@.failure is Some ==> final(exchange)@.failure == old(exchange)@.failure,
        end matches ReceiveEnd::Failed(error) ==> final(exchange)@.failure is Some && final(
            exchange
        )@.work != Work::Ready && (old(exchange)@.failure is None ==> final(exchange)@.failure
            == Some(error)),
        !(end is Failed) ==> final(exchange)@.failure == old(exchange)@.failure && final(
            exchange
        )@.work == old(exchange)@.work && final(exchange)@.received == Some(end),
        directive == Directive::Cancel <==> end is Failed && (old(exchange)@.work == Work::Calling
            || old(exchange)@.work == Work::Sending),
        old(exchange)@.work != Work::Ready ==> final(exchange)@.work == old(exchange)@.work,
{
}

/// A service that made a response leads to it, unless the exchange has failed
/// meanwhile; one that did not ends the exchange.
pub proof fn service_leads_to_a_response(
    exchange: &mut ServerExchange,
    result: Result<(), Error>,
    directive: Directive,
)
    requires
        call_ensures(ServerExchange::service_ended, (exchange, result), directive),
    ensures
        final(exchange)@.work == Work::Ready <==> result is Ok && old(exchange)@.failure is None,
        final(exchange)@.work != Work::Ready ==> final(exchange)@.work == Work::Ended,
        result is Ok ==> final(exchange)@.failure == old(exchange)@.failure,
        result matches Err(error) ==> final(exchange)@.failure == Some(
            if old(exchange)@.failure is Some {
                old(exchange)@.failure->0
            } else {
                error
            },
        ),
        directive == Directive::Cancel <==> result is Err,
        final(exchange)@.received == old(exchange)@.received,
        final(exchange)@.close == old(exchange)@.close,
        final(exchange)@.exchange == old(exchange)@.exchange,
{
}

/// A response that was sent ends serving; one that could not be fails the exchange
/// and stops what runs.
pub proof fn response_ends_serving(
    exchange: &mut ServerExchange,
    result: Result<(), Error>,
    directive: Directive,
)
    requires
        call_ensures(ServerExchange::response_ended, (exchange, result), directive),
    ensures
        final(exchange)@.work == Work::Ended,
        result is Ok ==> final(exchange)@.failure == old(exchange)@.failure,
        result is Err ==> final(exchange)@.failure is Some,
        old(exchange)@.failure is Some ==> final(exchange)@.failure == old(exchange)@.failure,
        result matches Err(error) ==> (old(exchange)@.failure is None ==> final(exchange)@.failure
            == Some(error)),
        directive == Directive::Cancel <==> result is Err,
        final(exchange)@.received == old(exchange)@.received,
        final(exchange)@.close == old(exchange)@.close,
{
}

/// Closing is never taken back: what closes the connection is asked for, or is a
/// request body that was given up before its response.
pub proof fn closing_is_kept(
    exchange: &mut ServerExchange,
    asked: bool,
    started: &mut ServerExchange,
    close: bool,
)
    requires
        call_ensures(ServerExchange::close_if, (exchange, asked), ()),
        call_ensures(ServerExchange::respond, (started,), close),
    ensures
        final(exchange)@.close <==> old(exchange)@.close || asked,
        final(exchange)@.work == old(exchange)@.work,
        final(exchange)@.received == old(exchange)@.received,
        final(exchange)@.failure == old(exchange)@.failure,
        close <==> old(started)@.close || old(started)@.received == Some(ReceiveEnd::Abandoned),
        final(started)@.close == close,
        final(started)@.work == Work::Sending,
        final(started)@.received == old(started)@.received,
        final(started)@.failure == old(started)@.failure,
        final(started)@.exchange == old(started)@.exchange,
{
}

/// An exchange of a server that ran well ends as its response says: the connection
/// is handed over, used again or closed. One whose request was given up closes it,
/// and a failure is reported.
pub proof fn served_exchange_ends_as_agreed(
    state: ServerExchange,
    result: Result<Outcome, Error>,
)
    requires
        call_ensures(ServerExchange::conclude, (state,), result),
        state@.wf(),
        state@.over(),
        !state@.exchange.failed,
        state@.exchange.request == Progress::Active,
        state@.exchange.response == Progress::Active,
    ensures
        state@.failure matches Some(error) ==> result == Err::<Outcome, _>(error),
        state@.failure is None && state@.received == Some(ReceiveEnd::Abandoned) ==> result == Ok::<
            Outcome,
            Error,
        >(Outcome::Close),
        state@.failure is None && state@.received == Some(ReceiveEnd::Complete) ==> match
            state@.exchange.phase {
            ResponsePhase::Upgrade(kind) => result == Ok::<Outcome, Error>(Outcome::Handoff(kind)),
            ResponsePhase::Final => result == Ok::<Outcome, Error>(
                if state@.exchange.persistence == Persistence::Reusable && !state@.close {
                    Outcome::Reusable
                } else {
                    Outcome::Close
                },
            ),
            ResponsePhase::AwaitingHead => result is Err,
        },
{
}

/// What a server does behind an exchange is what the exchange ended with.
pub proof fn next_request_is_awaited(outcome: Outcome, result: Result<Next, Error>)
    requires
        call_ensures(server::after_exchange, (outcome,), result),
    ensures
        result == Ok::<Next, Error>(Next::Await) <==> outcome == Outcome::Reusable,
        result == Ok::<Next, Error>(Next::Shutdown) <==> outcome == Outcome::Close,
        outcome matches Outcome::Handoff(kind) ==> result == Ok::<Next, Error>(Next::Handoff(kind)),
        result matches Ok(Next::Handoff(kind)) ==> outcome == Outcome::Handoff(kind),
        outcome == Outcome::Active <==> result is Err,
        result matches Err(error) ==> error.kind == ErrorKind::Internal,
{
}

/// A service amounts to its response exactly where it made one and everything that
/// goes before it was written; a service that failed is reported as that.
pub proof fn service_amounts_to_its_response<T>(
    result: Option<Result<T, Payload>>,
    written: Result<(), Error>,
    response: Result<T, Error>,
)
    requires
        call_ensures(server::service_result::<T>, (result, written), response),
    ensures
        response is Ok <==> (result matches Some(Ok(_))) && written is Ok,
        response matches Ok(made) ==> result == Some(Ok::<T, Payload>(made)),
        (result matches Some(Ok(_))) && written is Err ==> response == Err::<T, _>(written->Err_0),
        result matches Some(Err(_)) ==> (response matches Err(error) && error.kind
            == ErrorKind::Service && error.source is Some),
        result is None ==> (response matches Err(error) && error.kind == ErrorKind::Canceled),
{
}

/// The writer of informational responses is stopped where no response follows, and
/// a writer that stops by itself is an error.
pub proof fn writer_stops_with_the_service<T, E>(
    result: &Option<Result<T, E>>,
    cancels: bool,
    written: Result<(), Error>,
    error: Error,
)
    requires
        call_ensures(server::cancels_writer::<T, E>, (result,), cancels),
        call_ensures(server::writer_stopped, (written,), error),
    ensures
        !cancels <==> *result matches Some(Ok(_)),
        written matches Err(cause) ==> error == cause,
        written is Ok ==> error.kind == ErrorKind::Canceled,
{
}

/// Informational responses stay within their budget and are sent in HTTP/1.1 alone.
/// Permission stops the writer where it cannot be sent; a response of the
/// application is refused to it.
pub proof fn informational_responses_are_bounded(
    writer: &InformationalWriter,
    command: Command,
    version: Version,
    config: &EncodeConfig,
    memory: Memory,
    action: InformationalAction,
)
    requires
        call_ensures(InformationalWriter::next, (writer, command, version, config, memory), action),
        writer.wf(),
    ensures
        action is Write ==> writer.count < writer.max && version == Version::Http11,
        version != Version::Http11 ==> (action matches InformationalAction::Refuse(error)
            && error.kind == ErrorKind::Unsupported) || (action matches InformationalAction::Stop(
            error,
        ) && error.kind == ErrorKind::Unsupported),
        version == Version::Http11 && writer.count == writer.max ==> (action matches
            InformationalAction::Refuse(error) && error.kind == ErrorKind::Limit) || (
        action matches InformationalAction::Stop(error) && error.kind == ErrorKind::Limit),
        action is Stop ==> command is Continue,
        action is Refuse ==> command is Application,
        action matches InformationalAction::Write { head, automatic } ==> {
            &&& automatic <==> command is Continue
            &&& octets::octets(head.bytes).len() <= config.max_head_bytes
            &&& command matches Command::Application { status, .. } ==> head.mode
                == BodyMode::Empty || !(100 <= status.number() <= 199)
            &&& command is Continue ==> head.mode == BodyMode::Empty && octets::octets(head.bytes)
                == encode::response_bytes(
                ResponseView { version: Version::Http11, status: 100, headers: Seq::empty() },
            )
        },
{
}

/// A response that was written counts against the budget, and no other does. The
/// application is told how its response fared, and nobody else is.
pub proof fn written_responses_are_counted(
    writer: &mut InformationalWriter,
    automatic: bool,
    result: Result<(), Error>,
    told: (Result<(), Error>, Option<Result<(), Error>>),
)
    requires
        call_ensures(InformationalWriter::written, (writer, automatic, result), told),
    ensures
        final(writer).max == old(writer).max,
        result is Ok ==> final(writer).count == old(writer).count + 1,
        result is Err ==> final(writer).count == old(writer).count,
        told.0 == result,
        told.1 is None <==> automatic,
        told.1 matches Some(answer) ==> answer == result,
{
}

/// A date that is kept is that of its second: asking again in the same second gives
/// the same text.
pub proof fn dates_are_of_their_second(
    cache: &mut DateCache,
    second: u64,
    value: HeaderValue,
    again: &mut DateCache,
    other: HeaderValue,
)
    requires
        call_ensures(DateCache::value, (cache, second), value),
        call_ensures(DateCache::value, (again, second), other),
    ensures
        fields::value_text(value) == date::date_text(second),
        fields::value_text(value) == fields::value_text(other),
        final(cache).wf(),
{
}

/// A response is made ready where its head can be prepared and its exchange takes it: a
/// refusal is the one of its head, that of an informational response, which is not sent
/// here, or that of a closing connection, which is handed over to nobody.
pub proof fn prepared_responses_are_sent(
    answer: Answer,
    method: &Method,
    request: Version,
    close: bool,
    date: Option<HeaderValue>,
    config: &EncodeConfig,
    exchange: &mut Exchange,
    result: Result<Reply, Error>,
    added: HeaderMap,
    limits: EncodeLimits,
    prepared: Result<(EncodedHead, ValidatedResponseHead), EncodeError>,
    same: &mut Exchange,
    understood: &ValidatedResponseHead,
    taken: Result<HeadAction, Error>,
    encoder: Result<BodyEncoder, EncodeError>,
)
    requires
        call_ensures(
            server::reply,
            (answer, method, request, close, date, config, exchange, Memory::Granted),
            result,
        ),
        call_ensures(EncodeConfig::limits, (config,), limits),
        fields::entries(added) == server::answered(
            answer,
            request,
            close,
            server::date_value(date),
        ).headers,
        call_ensures(
            encode::prepare_response_head_with_memory,
            (
                answer.status,
                server::response_version(request, answer.version),
                added,
                answer.metadata,
                method,
                limits,
                Memory::Granted,
            ),
            prepared,
        ),
        call_ensures(Exchange::sent_response, (same, understood), taken),
        old(same)@ == old(exchange)@,
        prepared matches Ok((_, head)) ==> head@ == understood@,
        prepared matches Ok((head, _)) ==> call_ensures(
            BodyEncoder::new,
            (head.mode, answer.metadata, limits),
            encoder,
        ),
        !fields::nearly_full(fields::entries(answer.headers)),
        !fields::nearly_full(fields::entries(added)),
    ensures
        ({
            let status = answer.status.number();
            let informational = 100 <= status <= 199 && status != 101;
            &&& (informational ==> (result matches Err(error) && error.kind
                == ErrorKind::Unsupported) && final(exchange)@ == old(exchange)@)
            &&& (!informational ==> (prepared matches Err(refusal) ==> (result matches Err(error)
                && error.source == Some(Source::Encode(refusal))) && final(exchange)@ == old(
                exchange
            )@))
            &&& (!informational ==> (prepared matches Ok((head, _)) ==> (head.upgrade is Some && close
                ==> (result matches Err(error) && error.kind == ErrorKind::Upgrade) && final(
                exchange
            )@ == old(exchange)@)))
            &&& (!informational ==> (prepared matches Ok((head, _)) ==> (!(head.upgrade is Some
                && close) ==> (result is Ok <==> taken is Ok && encoder is Ok) && final(exchange)@
                == final(same)@ && (taken matches Err(error) ==> result == Err::<Reply, Error>(
                error,
            )))))
        }),
{
}

/// An informational response goes out where the request is of HTTP/1.1, there were fewer
/// than allowed, and its head can be written: nothing else stands in its way. Permission
/// is one of status 100 without fields.
pub proof fn informational_responses_go_out(
    writer: &InformationalWriter,
    command: Command,
    version: Version,
    config: &EncodeConfig,
    action: InformationalAction,
    status: StatusCode,
    wording: Version,
    headers: HeaderMap,
    metadata: BodyMetadata,
    method: &Method,
    limits: EncodeLimits,
    encoded: Result<EncodedHead, EncodeError>,
)
    requires
        call_ensures(
            InformationalWriter::next,
            (writer, command, version, config, Memory::Granted),
            action,
        ),
        call_ensures(EncodeConfig::limits, (config,), limits),
        call_ensures(
            encode::encode_response_head_with_memory,
            (status, wording, headers, metadata, method, limits, Memory::Granted),
            encoded,
        ),
        metadata == server::nothing(),
        method@ == message::method_named("GET"),
        command is Continue ==> status.number() == 100 && wording == Version::Http11
            && fields::entries(headers) == Seq::<(Seq<u8>, Seq<Seq<u8>>)>::empty(),
        command matches Command::Application { status: given, version: named, headers: kept }
            ==> given.number() == status.number() && named == wording && fields::entries(kept)
            == fields::entries(headers),
        version == Version::Http11,
        writer.count < writer.max,
        !fields::nearly_full(fields::entries(headers)),
    ensures
        action is Write <==> encoded is Ok,
        action matches InformationalAction::Write { head, .. } ==> (encoded matches Ok(same)
            && octets::octets(head.bytes) == octets::octets(same.bytes) && head.mode == same.mode),
        action matches InformationalAction::Refuse(error) ==> (encoded matches Err(refusal)
            && error.source == Some(Source::Encode(refusal))),
        action matches InformationalAction::Stop(error) ==> (encoded matches Err(refusal)
            && error.source == Some(Source::Encode(refusal))),
{
}

/// An exchange that is served replies as its connection is to be used, and keeps what
/// else it knows.
pub proof fn exchanges_reply_as_they_close(
    serving: &mut ServerExchange,
    answer: Answer,
    method: &Method,
    request: Version,
    date: Option<HeaderValue>,
    config: &EncodeConfig,
    result: Result<Reply, Error>,
    same: &mut Exchange,
    other: Result<Reply, Error>,
)
    requires
        call_ensures(
            ServerExchange::reply,
            (serving, answer, method, request, date, config, Memory::Granted),
            result,
        ),
        call_ensures(
            server::reply,
            (
                answer,
                method,
                request,
                old(serving)@.close,
                date,
                config,
                same,
                Memory::Granted,
            ),
            other,
        ),
        old(same)@ == old(serving)@.exchange,
        !fields::nearly_full(fields::entries(answer.headers)),
        !fields::nearly_full(
            server::answered(answer, request, old(serving)@.close, server::date_value(date)).headers,
        ),
    ensures
        result is Ok <==> other is Ok,
        result matches Ok(reply) ==> (other matches Ok(twin) && octets::octets(reply.head.bytes)
            == octets::octets(twin.head.bytes) && reply.head.mode == twin.head.mode
            && reply.head.persistence == twin.head.persistence),
        final(serving)@.exchange == final(same)@,
        final(serving)@.close == old(serving)@.close,
        final(serving)@.work == old(serving)@.work,
        final(serving)@.received == old(serving)@.received,
{
}

/// Serving starts with the call of the service, and with nothing received or failed.
pub proof fn serving_starts_afresh(
    exchange: Exchange,
    close: bool,
    fresh: ServerExchange,
    work: Work,
    max: usize,
    writer: InformationalWriter,
)
    requires
        call_ensures(ServerExchange::new, (exchange, close), fresh),
        call_ensures(ServerExchange::work, (&fresh,), work),
        call_ensures(InformationalWriter::new, (max,), writer),
    ensures
        work == Work::Calling,
        fresh@.received is None && fresh@.failure is None,
        fresh@.close == close,
        fresh@.exchange == exchange@,
        writer.count == 0 && writer.max == max,
{
}

/// A request head that has not ended is waited for as long as it fits its limit, and
/// refused where it does not; neither uses up input.
pub proof fn unended_requests_are_bounded(
    parser: &mut HeadParser<RequestRole>,
    buffer: &mut RecvBuffer,
    result: Result<HeadStep, Error>,
)
    requires
        call_ensures(server::await_head, (parser, buffer, false), result),
        forall|i: int| 0 <= i < old(buffer)@.len() ==> #[trigger] old(buffer)@[i] != '\n' as u8,
    ensures
        old(buffer)@.len() > old(parser).limits.max_bytes ==> (result matches Err(error)
            && error.kind == ErrorKind::Limit),
        old(buffer)@.len() <= old(parser).limits.max_bytes ==> (result matches Ok(HeadStep::Read)),
        *final(buffer) == *old(buffer),
{
    let input = crate::proto::h1::head::bounded(old(buffer)@, old(parser).limits);
    crate::proto::h1::scan::head_ends_with_its_line(input);
    assert forall|i: int| 0 <= i < input.len() implies #[trigger] input[i] == old(buffer)@[i] by {}
}

} // verus!
