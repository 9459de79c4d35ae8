//! What holds of every message head that is understood.

use crate::ascii::{self, COMMA, SEMICOLON};
use crate::message::{self, Method, Version};
use crate::outside::fields;
use crate::outside::start_line;
use crate::proto::h1::codec_laws;
use crate::proto::h1::head::{HeadError, RequestHead, RequestView, ResponseHead};
use crate::proto::h1::syntax;
use crate::proto::h1::validate::{self, ValidatedRequestHead, ValidatedResponseHead};
use crate::proto::h1::values::{self, ConnectionOptions};
use crate::proto::h1::{BodyMode, Expectation, Persistence, TargetForm, UpgradeKind};
use http::HeaderMap;
use vstd::prelude::*;

verus! {

/// Whether a look at a request head, as its sender or its receiver takes it, may
/// give this result.
pub open spec fn reads_request(
    head: RequestHead,
    result: Result<ValidatedRequestHead, HeadError>,
) -> bool {
    ||| call_ensures(RequestHead::validate, (head,), result)
    ||| call_ensures(RequestHead::validate_received, (head,), result)
}

/// Whether a look at a response head as the answer to a request of this method may
/// give this result.
pub open spec fn reads_response(
    head: ResponseHead,
    method: &Method,
    result: Result<ValidatedResponseHead, HeadError>,
) -> bool {
    call_ensures(ResponseHead::validate, (head, method), result)
}

/// The values that a map holds under a name.
pub open spec fn held(headers: HeaderMap, name: &str) -> Seq<Seq<u8>> {
    fields::values_of(fields::entries(headers), fields::named(name))
}

/// Whether a comma-separated list names an option, whatever the case of its letters
/// and the whitespace around it.
pub open spec fn lists(values: Seq<Seq<u8>>, option: &str) -> bool {
    exists|i: int|
        0 <= i < values::all_members(values).0.len() && ascii::lowered(
            syntax::trimmed(#[trigger] values::all_members(values).0[i]),
        ) == fields::named(option)
}

/// Whether a comma-separated list is well formed and made of tokens.
pub open spec fn lists_tokens(values: Seq<Seq<u8>>) -> bool {
    &&& values::all_members(values).1
    &&& forall|i: int|
        0 <= i < values::all_members(values).0.len() ==> syntax::is_token_text(
            syntax::trimmed(#[trigger] values::all_members(values).0[i]),
        )
}

pub(crate) proof fn members_are_some(
    input: Seq<u8>,
    start: nat,
    index: nat,
    quoted: bool,
    escaped: bool,
)
    ensures
        values::members_from(input, start, index, quoted, escaped).1 ==> values::members_from(
            input,
            start,
            index,
            quoted,
            escaped,
        ).0.len() > 0,
    decreases input.len() - index,
{
    if index < input.len() {
        members_are_some(input, start, index + 1, quoted, false);
        members_are_some(input, start, index + 1, quoted, true);
        members_are_some(input, start, index + 1, !quoted, false);
        members_are_some(input, index + 1, index + 1, false, false);
    }
}

/// A well-formed list of values has a member where there is a value.
pub proof fn values_have_members(values: Seq<Seq<u8>>)
    ensures
        values::all_members(values).1 && values.len() > 0 ==> values::all_members(values).0.len()
            > 0,
        values.len() == 0 ==> values::all_members(values) == (Seq::<Seq<u8>>::empty(), true),
{
    if values.len() > 0 {
        members_are_some(values[0], 0, 0, false, false);
    }
}

pub(crate) proof fn trimmed_twice(value: Seq<u8>)
    ensures
        syntax::trimmed(syntax::trimmed(value)) == syntax::trimmed(value),
{
    syntax::trimmed_ends(value);
    syntax::trimmed_keeps(syntax::trimmed(value));
}

spec fn some_member(listed: Seq<Seq<u8>>, option: Seq<u8>) -> bool {
    exists|i: int|
        0 <= i < listed.len() && ascii::lowered(syntax::trimmed(#[trigger] listed[i])) == option
}

proof fn some_member_splits(listed: Seq<Seq<u8>>, option: Seq<u8>)
    requires
        listed.len() > 0,
    ensures
        some_member(listed, option) <==> ascii::lowered(syntax::trimmed(listed[0])) == option
            || some_member(listed.skip(1), option),
{
    let rest = listed.skip(1);
    if some_member(listed, option) {
        let i = choose|i: int|
            0 <= i < listed.len() && ascii::lowered(syntax::trimmed(#[trigger] listed[i]))
                == option;
        if i > 0 {
            assert(rest[i - 1] == listed[i]);
        }
    }
    if some_member(rest, option) {
        let i = choose|i: int|
            0 <= i < rest.len() && ascii::lowered(syntax::trimmed(#[trigger] rest[i])) == option;
        assert(listed[i + 1] == rest[i]);
    }
}

proof fn option_names_differ()
    ensures
        fields::named("close") != fields::named("keep-alive"),
        fields::named("close") != fields::named("upgrade"),
        fields::named("keep-alive") != fields::named("upgrade"),
{
    reveal_strlit("close");
    reveal_strlit("keep-alive");
    reveal_strlit("upgrade");
    reveal_with_fuel(fields::plain_from, 11);
    fields::plain_text("close"@);
    fields::plain_text("keep-alive"@);
    fields::plain_text("upgrade"@);
    assert(fields::named("close").len() == 5);
    assert(fields::named("keep-alive").len() == 10);
    assert(fields::named("upgrade").len() == 7);
}

proof fn options_are_listed(listed: Seq<Seq<u8>>, before: ConnectionOptions)
    ensures
        values::options_from(listed, before) matches Ok(options) ==> {
            &&& options.close == (before.close || some_member(listed, fields::named("close")))
            &&& options.keep_alive == (before.keep_alive || some_member(
                listed,
                fields::named("keep-alive"),
            ))
            &&& options.upgrade == (before.upgrade || some_member(listed, fields::named("upgrade")))
        },
        (forall|i: int|
            0 <= i < listed.len() ==> syntax::is_token_text(
                syntax::trimmed(#[trigger] listed[i]),
            )) <==> values::options_from(listed, before) is Ok,
        values::options_from(listed, before) matches Err(error) ==> error
            == HeadError::InvalidConnection,
    decreases listed.len(),
{
    option_names_differ();
    if listed.len() > 0 {
        let rest = listed.skip(1);
        some_member_splits(listed, fields::named("close"));
        some_member_splits(listed, fields::named("keep-alive"));
        some_member_splits(listed, fields::named("upgrade"));
        assert forall|i: int| 0 <= i < rest.len() implies #[trigger] rest[i] == listed[i + 1] by {}
        assert((forall|i: int|
            0 <= i < listed.len() ==> syntax::is_token_text(
                syntax::trimmed(#[trigger] listed[i]),
            )) <==> syntax::is_token_text(syntax::trimmed(listed[0])) && (forall|i: int|
            0 <= i < rest.len() ==> syntax::is_token_text(syntax::trimmed(#[trigger] rest[i]))))
            by {
            if forall|i: int|
                0 <= i < rest.len() ==> syntax::is_token_text(syntax::trimmed(#[trigger] rest[i])) {
                assert forall|i: int| 1 <= i < listed.len() implies syntax::is_token_text(
                    syntax::trimmed(#[trigger] listed[i]),
                ) by {
                    assert(rest[i - 1] == listed[i]);
                }
            }
            if forall|i: int|
                0 <= i < listed.len() ==> syntax::is_token_text(
                    syntax::trimmed(#[trigger] listed[i]),
                ) {
                assert forall|i: int| 0 <= i < rest.len() implies syntax::is_token_text(
                    syntax::trimmed(#[trigger] rest[i]),
                ) by {
                    assert(rest[i] == listed[i + 1]);
                }
            }
        }
        if let Some(options) = values::with_option(before, listed[0]) {
            options_are_listed(rest, options);
        }
    }
}

/// What the connection fields ask for is what they list, and they are understood
/// exactly where they are a list of tokens.
pub proof fn connection_options_are_listed(
    headers: &HeaderMap,
    result: Result<ConnectionOptions, HeadError>,
)
    requires
        call_ensures(validate::connection_options, (headers,), result),
    ensures
        result matches Ok(options) ==> {
            &&& options.close <==> lists(held(*headers, "connection"), "close")
            &&& options.keep_alive <==> lists(held(*headers, "connection"), "keep-alive")
            &&& options.upgrade <==> lists(held(*headers, "connection"), "upgrade")
        },
        result is Ok <==> lists_tokens(held(*headers, "connection")),
        result matches Err(error) ==> error == HeadError::InvalidConnection,
{
    connection_is_listed(held(*headers, "connection"));
}

pub(crate) proof fn connection_is_listed(given: Seq<Seq<u8>>)
    ensures
        values::connection_of(given) matches Ok(options) ==> {
            &&& options.close <==> lists(given, "close")
            &&& options.keep_alive <==> lists(given, "keep-alive")
            &&& options.upgrade <==> lists(given, "upgrade")
        },
        values::connection_of(given) is Ok <==> lists_tokens(given),
        values::connection_of(given) matches Err(error) ==> error == HeadError::InvalidConnection,
{
    let listed = values::all_members(given).0;
    options_are_listed(listed, values::no_options());
    assert(some_member(listed, fields::named("close")) == lists(given, "close"));
    assert(some_member(listed, fields::named("keep-alive")) == lists(given, "keep-alive"));
    assert(some_member(listed, fields::named("upgrade")) == lists(given, "upgrade"));
}

/// Whether every member of a list states this length in decimal digits.
pub open spec fn all_state(values: Seq<Seq<u8>>, length: u64) -> bool {
    &&& values::all_members(values).1
    &&& values::all_members(values).0.len() > 0
    &&& forall|i: int|
        0 <= i < values::all_members(values).0.len() ==> values::stated_length(
            #[trigger] values::all_members(values).0[i],
        ) == Some(length)
}

/// Whether a list names the chunked coding and nothing else.
pub open spec fn only_chunked(values: Seq<Seq<u8>>) -> bool {
    &&& values::all_members(values).1
    &&& values::all_members(values).0.len() == 1
    &&& ascii::lowered(syntax::trimmed(values::all_members(values).0[0])) == fields::named(
        "chunked",
    )
}

proof fn lengths_agree(stated: Seq<Seq<u8>>, before: Option<u64>)
    ensures
        values::agreed_length(stated, before) matches Ok(agreed) ==> {
            &&& stated.len() == 0 ==> agreed == before
            &&& stated.len() > 0 ==> agreed is Some && (forall|i: int|
                0 <= i < stated.len() ==> values::stated_length(#[trigger] stated[i]) == agreed)
            &&& before is Some ==> agreed == before
        },
        values::agreed_length(stated, before) matches Err(error) ==> stated.len() > 0 && (error
            == HeadError::InvalidContentLength || error == HeadError::AmbiguousMessageLength),
    decreases stated.len(),
{
    if stated.len() > 0 {
        let rest = stated.skip(1);
        if let Some(length) = values::stated_length(stated[0]) {
            lengths_agree(rest, Some(length));
            if values::agreed_length(rest, Some(length)) is Ok {
                assert forall|i: int| 0 <= i < stated.len() implies values::stated_length(
                    #[trigger] stated[i],
                ) == Some(length) by {
                    if i > 0 {
                        assert(rest[i - 1] == stated[i]);
                    }
                }
            }
        }
    }
}

proof fn agreed_length_is_taken(stated: Seq<Seq<u8>>, before: Option<u64>, length: u64)
    requires
        before is None || before == Some(length),
        forall|i: int|
            0 <= i < stated.len() ==> values::stated_length(#[trigger] stated[i]) == Some(length),
    ensures
        values::agreed_length(stated, before) == Ok::<Option<u64>, HeadError>(
            if stated.len() == 0 {
                before
            } else {
                Some(length)
            },
        ),
    decreases stated.len(),
{
    if stated.len() > 0 {
        let rest = stated.skip(1);
        assert(values::stated_length(stated[0]) == Some(length));
        assert forall|i: int| 0 <= i < rest.len() implies values::stated_length(#[trigger] rest[i])
            == Some(length) by {
            assert(rest[i] == stated[i + 1]);
        }
        agreed_length_is_taken(rest, Some(length), length);
    }
}

/// The content length fields state a length exactly where every member of them
/// states it, and none exactly where there are none.
pub(crate) proof fn length_is_stated(given: Seq<Seq<u8>>)
    ensures
        values::content_length(given) matches Ok(Some(length)) ==> all_state(given, length),
        forall|length: u64| #[trigger]
            all_state(given, length) ==> values::content_length(given) == Ok::<
                Option<u64>,
                HeadError,
            >(Some(length)),
        values::content_length(given) == Ok::<Option<u64>, HeadError>(None) <==> given.len() == 0,
        values::content_length(given) matches Err(error) ==> given.len() > 0 && (error
            == HeadError::InvalidContentLength || error == HeadError::AmbiguousMessageLength),
{
    let listed = values::all_members(given).0;
    values_have_members(given);
    lengths_agree(listed, None);
    assert forall|length: u64| #[trigger]
        all_state(given, length) implies values::content_length(given) == Ok::<
        Option<u64>,
        HeadError,
    >(Some(length)) by {
        agreed_length_is_taken(listed, None, length);
    }
}

proof fn codings_are_counted(listed: Seq<Seq<u8>>, before: values::Codings)
    requires
        before.chunked_last ==> before.chunked,
        before.any ==> before.chunked || before.unsupported,
    ensures
        values::codings_from(listed, before) matches Ok(codings) ==> {
            &&& codings.any == (before.any || listed.len() > 0)
            &&& before.unsupported ==> codings.unsupported
            &&& codings.chunked_last && !codings.unsupported && listed.len() > 0 ==> !before.any
                && listed.len() == 1 && ascii::lowered(syntax::trimmed(listed[0]))
                == fields::named("chunked")
        },
        values::codings_from(listed, before) matches Err(error) ==> listed.len() > 0 && error
            == HeadError::InvalidTransferEncoding,
    decreases listed.len(),
{
    if listed.len() > 0 {
        let member = listed[0];
        let rest = listed.skip(1);
        trimmed_twice(member);
        ascii::position_is_first(syntax::trimmed(member), SEMICOLON);
        if let Some(codings) = values::with_coding(before, member) {
            codings_are_counted(rest, codings);
            let (coding, parameters) = values::coding_of(member);
            if parameters.len() == 0 {
                let whole = syntax::trimmed(member);
                assert(whole.take(ascii::position(whole, SEMICOLON) as int) =~= whole);
                assert(coding == whole);
            }
        }
    }
}

proof fn chunked_is_plain(text: Seq<u8>)
    requires
        ascii::lowered(text) == fields::named("chunked"),
    ensures
        text.len() == 7,
        syntax::is_token_text(text),
        forall|i: int| 0 <= i < text.len() ==> #[trigger] text[i] != SEMICOLON,
{
    reveal_strlit("chunked");
    reveal_with_fuel(fields::plain_from, 8);
    fields::plain_text("chunked"@);
    let plain = vstd::utf8::encode_utf8("chunked"@);
    assert(ascii::lowered(text).len() == text.len());
    assert forall|i: int| 0 <= i < text.len() implies syntax::token_byte(#[trigger] text[i])
        && text[i] != SEMICOLON by {
        assert(ascii::lowered(text)[i] == ascii::lowered(plain)[i]);
        assert(syntax::token_byte(plain[i]));
        assert(vstd::utf8::is_ascii_chars("chunked"@)) by {
            assert forall|k: int| 0 <= k < 7 implies ("chunked"@)[k] < 0x80 by {}
        }
        vstd::utf8::is_ascii_chars_encode_utf8("chunked"@);
        assert(plain[i] == ("chunked"@)[i] as u8);
        assert(0x61 <= plain[i] <= 0x7a);
    }
}

/// The transfer encoding fields frame a body exactly where they name the chunked
/// coding and nothing else, and frame none exactly where there are none.
pub(crate) proof fn coding_is_named(given: Seq<Seq<u8>>)
    ensures
        values::transfer_encoding(given) matches Ok(Some(_)) <==> only_chunked(given),
        values::transfer_encoding(given) == Ok::<Option<values::TransferFraming>, HeadError>(None)
            <==> given.len() == 0,
        values::transfer_encoding(given) matches Err(error) ==> given.len() > 0 && (error
            == HeadError::InvalidTransferEncoding || error == HeadError::UnsupportedTransferCoding),
{
    let listed = values::all_members(given).0;
    values_have_members(given);
    codings_are_counted(listed, values::no_codings());
    if only_chunked(given) {
        let member = listed[0];
        let whole = syntax::trimmed(member);
        trimmed_twice(member);
        chunked_is_plain(whole);
        ascii::position_is_unique(whole, SEMICOLON, 7);
        assert(whole.take(7) =~= whole);
        assert(whole.skip(7) =~= Seq::empty());
        assert(values::coding_of(member) == (whole, Seq::<u8>::empty()));
        assert(listed.skip(1) =~= Seq::empty());
        reveal_with_fuel(values::codings_from, 2);
    }
}

/// Whether fields of a message of this version frame a body, one way alone.
pub open spec fn frames(lengths: Seq<Seq<u8>>, codings: Seq<Seq<u8>>, version: Version) -> bool {
    ||| lengths.len() == 0 && codings.len() == 0
    ||| lengths.len() == 0 && only_chunked(codings) && version == Version::Http11
    ||| codings.len() == 0 && exists|length: u64| all_state(lengths, length)
}

/// Whether a body mode is what the fields of a message declare: a length that all
/// members of the length fields state, or chunks, or nothing where there are no
/// such fields.
pub open spec fn declared(
    lengths: Seq<Seq<u8>>,
    codings: Seq<Seq<u8>>,
    mode: Option<BodyMode>,
) -> bool {
    match mode {
        None => lengths.len() == 0 && codings.len() == 0,
        Some(BodyMode::Fixed(length)) => codings.len() == 0 && all_state(lengths, length),
        Some(BodyMode::Chunked) => lengths.len() == 0 && only_chunked(codings),
        Some(_) => false,
    }
}

pub(crate) proof fn framing_is_declared(
    headers: Seq<(Seq<u8>, Seq<Seq<u8>>)>,
    version: Version,
)
    ensures
        ({
            let lengths = fields::values_of(headers, fields::named("content-length"));
            let codings = fields::values_of(headers, fields::named("transfer-encoding"));
            &&& validate::framing_of(headers, version) is Ok <==> frames(lengths, codings, version)
            &&& validate::framing_of(headers, version) matches Ok(mode) ==> declared(
                lengths,
                codings,
                mode,
            ) && (mode == Some(BodyMode::Chunked) ==> version == Version::Http11)
            &&& validate::framing_of(headers, version) matches Err(error) ==> lengths.len()
                + codings.len() > 0 && framing_error(error)
        }),
{
    let lengths = fields::values_of(headers, fields::named("content-length"));
    let codings = fields::values_of(headers, fields::named("transfer-encoding"));
    length_is_stated(lengths);
    coding_is_named(codings);
    if validate::framing_of(headers, version) is Ok && lengths.len() > 0 {
        let length = values::content_length(lengths)->Ok_0->0;
        assert(all_state(lengths, length));
    }
    if lengths.len() == 0 {
        values_have_members(lengths);
    }
    if codings.len() == 0 {
        values_have_members(codings);
    }
}

/// Whether an error says that the framing of a message is not understood.
pub open spec fn framing_error(error: HeadError) -> bool {
    ||| error == HeadError::InvalidContentLength
    ||| error == HeadError::AmbiguousMessageLength
    ||| error == HeadError::InvalidTransferEncoding
    ||| error == HeadError::UnsupportedTransferCoding
}

proof fn host_is_no_other_name()
    ensures
        fields::named("host") != fields::named("content-length"),
        fields::named("host") != fields::named("transfer-encoding"),
        fields::named("host") != fields::named("connection"),
        fields::named("host") != fields::named("expect"),
        fields::named("host") != fields::named("upgrade"),
{
    reveal_strlit("host");
    reveal_strlit("content-length");
    reveal_strlit("transfer-encoding");
    reveal_strlit("connection");
    reveal_strlit("expect");
    reveal_strlit("upgrade");
    reveal_with_fuel(fields::plain_from, 18);
    fields::plain_text("host"@);
    fields::plain_text("content-length"@);
    fields::plain_text("transfer-encoding"@);
    fields::plain_text("connection"@);
    fields::plain_text("expect"@);
    fields::plain_text("upgrade"@);
    assert(fields::named("host").len() == 4);
    assert(fields::named("content-length").len() == 14);
    assert(fields::named("transfer-encoding").len() == 17);
    assert(fields::named("connection").len() == 10);
    assert(fields::named("expect").len() == 6);
    assert(fields::named("upgrade").len() == 7);
}

/// The fields that an understood request is read by: those it came with, but for the
/// host of an absolute target.
proof fn other_fields_are_kept(head: RequestView, received: bool)
    ensures
        validate::request_meaning(head, received) matches Ok(meaning) ==> {
            &&& meaning.head == (RequestView { headers: meaning.head.headers, ..head })
            &&& fields::values_of(meaning.head.headers, fields::named("content-length"))
                == fields::values_of(head.headers, fields::named("content-length"))
            &&& fields::values_of(meaning.head.headers, fields::named("transfer-encoding"))
                == fields::values_of(head.headers, fields::named("transfer-encoding"))
            &&& fields::values_of(meaning.head.headers, fields::named("connection"))
                == fields::values_of(head.headers, fields::named("connection"))
            &&& fields::values_of(meaning.head.headers, fields::named("expect"))
                == fields::values_of(head.headers, fields::named("expect"))
            &&& fields::values_of(meaning.head.headers, fields::named("upgrade"))
                == fields::values_of(head.headers, fields::named("upgrade"))
        },
{
    host_is_no_other_name();
    if let Some((authority, _)) = head.target.authority {
        let host = fields::named("host");
        codec_laws::inserted_is_found(
            head.headers,
            host,
            authority,
            fields::named("content-length"),
        );
        codec_laws::inserted_is_found(
            head.headers,
            host,
            authority,
            fields::named("transfer-encoding"),
        );
        codec_laws::inserted_is_found(head.headers, host, authority, fields::named("connection"));
        codec_laws::inserted_is_found(head.headers, host, authority, fields::named("expect"));
        codec_laws::inserted_is_found(head.headers, host, authority, fields::named("upgrade"));
    }
}

/// The body of a request is the one that its fields declare. Without a length and
/// without a coding it has none, so that the next request starts right behind the
/// head: no request has a body that ends with the connection.
pub proof fn request_body_is_declared(
    head: RequestHead,
    result: Result<ValidatedRequestHead, HeadError>,
)
    requires
        reads_request(head, result),
    ensures
        result matches Ok(request) ==> {
            let lengths = held(head.headers, "content-length");
            let codings = held(head.headers, "transfer-encoding");
            &&& request.body != BodyMode::UntilEof
            &&& request.body == BodyMode::Empty <==> lengths.len() == 0 && codings.len() == 0
            &&& request.body == BodyMode::Chunked <==> codings.len() > 0
            &&& request.body == BodyMode::Chunked ==> only_chunked(codings) && head.version
                == Version::Http11
            &&& request.body is Fixed <==> lengths.len() > 0
            &&& request.body matches BodyMode::Fixed(length) ==> all_state(lengths, length)
        },
{
    let received = call_ensures(RequestHead::validate_received, (head,), result);
    other_fields_are_kept(head@, received);
    if let Ok(request) = result {
        framing_is_declared(fields::entries(request.head.headers), head.version);
    }
}

/// The connection of a request lasts unless the request closes it; before HTTP/1.1
/// it closes unless the request keeps it.
pub proof fn request_persistence_is_asked_for(
    head: RequestHead,
    result: Result<ValidatedRequestHead, HeadError>,
)
    requires
        reads_request(head, result),
    ensures
        result matches Ok(request) ==> {
            let options = held(head.headers, "connection");
            &&& lists_tokens(options)
            &&& lists(options, "close") ==> request.persistence == Persistence::Close
            &&& head.version == Version::Http10 && !lists(options, "keep-alive")
                ==> request.persistence == Persistence::Close
            &&& !lists(options, "close") && (head.version != Version::Http10 || lists(
                options,
                "keep-alive",
            )) ==> request.persistence == Persistence::Reusable
        },
{
    let received = call_ensures(RequestHead::validate_received, (head,), result);
    other_fields_are_kept(head@, received);
    connection_is_listed(held(head.headers, "connection"));
}

/// A request waits for permission exactly where it is of HTTP/1.1 and its
/// expectation fields ask for it, which is all that they may ask for.
pub proof fn request_expectation_is_asked_for(
    head: RequestHead,
    result: Result<ValidatedRequestHead, HeadError>,
)
    requires
        reads_request(head, result),
    ensures
        result matches Ok(request) ==> {
            let expected = held(head.headers, "expect");
            &&& request.expectation == Expectation::Continue <==> head.version == Version::Http11
                && expected.len() > 0
            &&& values::all_members(expected).1
            &&& forall|i: int|
                0 <= i < values::all_members(expected).0.len() ==> ascii::lowered(
                    syntax::trimmed(#[trigger] values::all_members(expected).0[i]),
                ) == fields::named("100-continue")
        },
        call_ensures(RequestHead::validate, (head,), result) && result is Ok ==> head.version
            == Version::Http11 || held(head.headers, "expect").len() == 0,
{
    let received = call_ensures(RequestHead::validate_received, (head,), result);
    other_fields_are_kept(head@, received);
    if call_ensures(RequestHead::validate, (head,), result) {
        other_fields_are_kept(head@, false);
    }
    values_have_members(held(head.headers, "expect"));
}

/// A request asks for a tunnel exactly where its method does. It asks for another
/// protocol exactly where it is of HTTP/1.1 and both its connection fields and its
/// upgrade fields say so, and never where it closes the connection.
pub proof fn request_upgrade_is_asked_for(
    head: RequestHead,
    result: Result<ValidatedRequestHead, HeadError>,
)
    requires
        reads_request(head, result),
    ensures
        result matches Ok(request) ==> {
            let options = held(head.headers, "connection");
            let protocols = held(head.headers, "upgrade");
            let tunnel = head.method@ == message::method_named("CONNECT");
            &&& request.upgrade == Some(UpgradeKind::Tunnel) <==> tunnel
            &&& request.upgrade == Some(UpgradeKind::Protocol) <==> !tunnel && head.version
                == Version::Http11 && protocols.len() > 0
            &&& request.upgrade == Some(UpgradeKind::Protocol) <==> !tunnel && head.version
                == Version::Http11 && lists(options, "upgrade")
            &&& request.upgrade == Some(UpgradeKind::Protocol) ==> !lists(options, "close")
                && values::all_members(protocols).1
        },
{
    let received = call_ensures(RequestHead::validate_received, (head,), result);
    other_fields_are_kept(head@, received);
    connection_is_listed(held(head.headers, "connection"));
    values_have_members(held(head.headers, "upgrade"));
}

/// The form of an understood target is that of its parts, and goes with the method:
/// CONNECT has an authority with a port for a target and nothing else has, and only
/// OPTIONS has the asterisk.
pub proof fn request_target_has_a_form(
    head: RequestHead,
    result: Result<ValidatedRequestHead, HeadError>,
)
    requires
        reads_request(head, result),
    ensures
        result matches Ok(request) ==> {
            let target = head@.target;
            let form = request.target_form;
            let tunnel = head.method@ == message::method_named("CONNECT");
            &&& form == TargetForm::Authority <==> tunnel
            &&& form == TargetForm::Authority ==> !target.scheme && !target.path_present && (
            target.authority matches Some((_, port)) && port)
            &&& form == TargetForm::Asterisk ==> head.method@ == message::method_named("OPTIONS")
            &&& form == TargetForm::Asterisk <==> !tunnel && !target.scheme && target.authority
                is None && target.path == seq![0x2au8]
            &&& form == TargetForm::Absolute <==> target.scheme && target.authority is Some
            &&& form == TargetForm::Origin <==> !target.scheme && target.authority is None
                && target.path.len() > 0 && target.path[0] == 0x2f
        },
{
    let star = seq![0x2au8];
    assert(validate::asterisk() =~= star);
    assert(star[0] == 0x2a);
}

/// Whether a host field names a host.
pub open spec fn names_host(value: Seq<u8>) -> bool {
    let host = syntax::trimmed(value);
    &&& host.len() > 0
    &&& !host.contains(0x2c)
    &&& !host.contains(0x40)
    &&& start_line::is_authority(host)
}

/// An understood request has one host, which only a request before HTTP/1.1 may
/// leave out. An absolute target takes its place. Nothing else of the head changes.
pub proof fn request_has_one_host(
    head: RequestHead,
    result: Result<ValidatedRequestHead, HeadError>,
)
    requires
        reads_request(head, result),
    ensures
        result matches Ok(request) ==> {
            let hosts = held(head.headers, "host");
            &&& hosts.len() <= 1
            &&& hosts.len() == 0 ==> head.version != Version::Http11
            &&& hosts.len() == 1 ==> names_host(hosts[0])
            &&& request.head@.method == head@.method
            &&& request.head@.target == head@.target
            &&& request.head@.version == head@.version
            &&& !(head@.target.scheme && head@.target.authority is Some)
                ==> request.head@.headers == head@.headers
            &&& head@.target.scheme ==> (head@.target.authority matches Some((authority, _))
                ==> held(request.head.headers, "host") == seq![authority] && !authority.contains(
                0x40,
            ))
            &&& forall|other: Seq<u8>|
                other != fields::named("host") ==> #[trigger] fields::values_of(
                    request.head@.headers,
                    other,
                ) == fields::values_of(head@.headers, other)
        },
{
    if let Some((authority, _)) = head@.target.authority {
        assert forall|other: Seq<u8>| other != fields::named("host") implies
            #[trigger] fields::values_of(
            fields::inserted(head@.headers, fields::named("host"), authority),
            other,
        ) == fields::values_of(head@.headers, other) by {
            codec_laws::inserted_is_found(
                head@.headers,
                fields::named("host"),
                authority,
                other,
            );
        }
        codec_laws::inserted_is_found(
            head@.headers,
            fields::named("host"),
            authority,
            fields::named("host"),
        );
    }
}

/// Whether a target is one that a request of this method may have.
pub open spec fn target_goes(method: Seq<u8>, target: message::TargetParts) -> bool {
    if method == message::method_named("CONNECT") {
        !target.scheme && !target.path_present && (target.authority matches Some((_, port)) && port)
    } else {
        ||| target.scheme && target.authority is Some
        ||| !target.scheme && target.authority is None && target.path.len() > 0 && target.path[0]
            == 0x2f
        ||| !target.scheme && target.authority is None && target.path == seq![0x2au8] && method
            == message::method_named("OPTIONS")
    }
}

/// Whether the expectation fields ask for nothing but permission.
pub open spec fn expects_only_continue(expected: Seq<Seq<u8>>) -> bool {
    &&& values::all_members(expected).1
    &&& forall|i: int|
        0 <= i < values::all_members(expected).0.len() ==> ascii::lowered(
            syntax::trimmed(#[trigger] values::all_members(expected).0[i]),
        ) == fields::named("100-continue")
}

/// Whether the upgrade fields are a list of protocols.
pub open spec fn lists_protocols(protocols: Seq<Seq<u8>>) -> bool {
    &&& values::all_members(protocols).1
    &&& forall|i: int|
        0 <= i < values::all_members(protocols).0.len() ==> values::is_protocol(
            #[trigger] values::all_members(protocols).0[i],
        )
}

/// A request is refused only for what is wrong with it, and the error says what that
/// is.
pub proof fn request_refusal_has_a_reason(
    head: RequestHead,
    result: Result<ValidatedRequestHead, HeadError>,
)
    requires
        reads_request(head, result),
    ensures
        !target_goes(head@.method, head@.target) ==> (result matches Err(error) && (error
            == HeadError::InvalidTargetForm || !fields::roomy(head@.headers))),
        result matches Err(error) ==> {
            let hosts = held(head.headers, "host");
            let options = held(head.headers, "connection");
            let expected = held(head.headers, "expect");
            let protocols = held(head.headers, "upgrade");
            let absolute = head@.target.scheme && head@.target.authority is Some;
            ||| error == HeadError::InvalidTargetForm && !target_goes(head@.method, head@.target)
            ||| error == HeadError::MissingHost && hosts.len() == 0 && head.version
                == Version::Http11
            ||| error == HeadError::InvalidHost && (hosts.len() > 1 || (hosts.len() == 1
                && !names_host(hosts[0])))
            ||| error == HeadError::InvalidHost && absolute && !fields::is_value(
                (head@.target.authority->0).0,
            )
            ||| error == HeadError::InvalidTarget && absolute && (
            head@.target.authority->0).0.contains(0x40)
            ||| framing_error(error) && !frames(
                held(head.headers, "content-length"),
                held(head.headers, "transfer-encoding"),
                head.version,
            )
            ||| error == HeadError::InvalidConnection && !lists_tokens(options)
            ||| error == HeadError::InvalidExpectation && !expects_only_continue(expected)
            ||| error == HeadError::InvalidExpectation && expected.len() > 0 && head.version
                != Version::Http11
            ||| error == HeadError::InvalidUpgrade && !lists_protocols(protocols)
            ||| error == HeadError::InvalidUpgrade && (protocols.len() > 0) != lists(
                options,
                "upgrade",
            )
            ||| error == HeadError::InvalidUpgrade && protocols.len() > 0 && (head.version
                != Version::Http11 || lists(options, "close"))
            ||| error == HeadError::Limit(crate::proto::h1::head::HeadLimit::HeaderMap)
                && !fields::roomy(head@.headers)
        },
{
    let star = seq![0x2au8];
    assert(validate::asterisk() =~= star);
    assert(star[0] == 0x2a);
    host_is_no_other_name();
    let absolute = head@.target.scheme && head@.target.authority is Some;
    let headers = if absolute {
        fields::inserted(
            head@.headers,
            fields::named("host"),
            (head@.target.authority->0).0,
        )
    } else {
        head@.headers
    };
    if absolute {
        let authority = (head@.target.authority->0).0;
        let host = fields::named("host");
        codec_laws::inserted_is_found(
            head@.headers,
            host,
            authority,
            fields::named("content-length"),
        );
        codec_laws::inserted_is_found(
            head@.headers,
            host,
            authority,
            fields::named("transfer-encoding"),
        );
        codec_laws::inserted_is_found(head@.headers, host, authority, fields::named("connection"));
        codec_laws::inserted_is_found(head@.headers, host, authority, fields::named("expect"));
        codec_laws::inserted_is_found(head@.headers, host, authority, fields::named("upgrade"));
    }
    framing_is_declared(headers, head.version);
    connection_is_listed(held(head.headers, "connection"));
    values_have_members(held(head.headers, "expect"));
    values_have_members(held(head.headers, "upgrade"));
    assert(COMMA == 0x2c);
}

/// Whether a status rules out a body, or leads to no response that has one.
pub open spec fn rules_out_body(status: u16, method: Seq<u8>) -> bool {
    ||| 100 <= status <= 199
    ||| status == 204
    ||| status == 304
    ||| method == message::method_named("HEAD")
    ||| method == message::method_named("CONNECT") && 200 <= status <= 299
}

/// The body of a response is the one that its fields declare. Without a length and
/// without a coding it ends with the connection. An answer that cannot have a body
/// has none, whatever its fields say.
pub proof fn response_body_is_declared(
    head: ResponseHead,
    method: &Method,
    result: Result<ValidatedResponseHead, HeadError>,
)
    requires
        reads_response(head, method, result),
    ensures
        result matches Ok(response) ==> {
            let lengths = held(head.headers, "content-length");
            let codings = held(head.headers, "transfer-encoding");
            &&& response.head@ == head@
            &&& rules_out_body(head@.status, method@) <==> response.body == BodyMode::Empty
            &&& !rules_out_body(head@.status, method@) ==> {
                &&& response.body == BodyMode::UntilEof <==> lengths.len() == 0 && codings.len()
                    == 0
                &&& response.body == BodyMode::Chunked <==> codings.len() > 0
                &&& response.body == BodyMode::Chunked ==> only_chunked(codings) && head.version
                    == Version::Http11
                &&& response.body is Fixed <==> lengths.len() > 0
                &&& response.body matches BodyMode::Fixed(length) ==> all_state(lengths, length)
            }
        },
{
    framing_is_declared(fields::entries(head.headers), head.version);
}

/// The connection of a response lasts unless the response closes it or its body
/// ends with it; before HTTP/1.1 it closes, whatever frames the body, unless the
/// response keeps it.
pub proof fn response_persistence_is_asked_for(
    head: ResponseHead,
    method: &Method,
    result: Result<ValidatedResponseHead, HeadError>,
)
    requires
        reads_response(head, method, result),
    ensures
        result matches Ok(response) ==> {
            let options = held(head.headers, "connection");
            &&& lists_tokens(options)
            &&& lists(options, "close") ==> response.persistence == Persistence::Close
            &&& head.version == Version::Http10 && !lists(options, "keep-alive")
                ==> response.persistence == Persistence::Close
            &&& response.body == BodyMode::UntilEof ==> response.persistence == Persistence::Close
            &&& !lists(options, "close") && response.body != BodyMode::UntilEof && (head.version
                != Version::Http10 || lists(options, "keep-alive")) ==> response.persistence
                == Persistence::Reusable
        },
{
    connection_is_listed(held(head.headers, "connection"));
}

/// A response turns the connection into a tunnel exactly where it grants CONNECT,
/// and into another protocol exactly with the status for that, which both its
/// connection fields and its upgrade fields go with.
pub proof fn response_upgrade_is_named(
    head: ResponseHead,
    method: &Method,
    result: Result<ValidatedResponseHead, HeadError>,
)
    requires
        reads_response(head, method, result),
    ensures
        result matches Ok(response) ==> {
            let options = held(head.headers, "connection");
            let protocols = held(head.headers, "upgrade");
            &&& response.upgrade == Some(UpgradeKind::Protocol) <==> head@.status == 101
            &&& response.upgrade == Some(UpgradeKind::Tunnel) <==> method@ == message::method_named(
                "CONNECT",
            ) && 200 <= head@.status <= 299
            &&& head@.status == 101 ==> head.version == Version::Http11 && lists(options, "upgrade")
                && !lists(options, "close") && protocols.len() > 0 && lists_protocols(protocols)
        },
{
    connection_is_listed(held(head.headers, "connection"));
    values_have_members(held(head.headers, "upgrade"));
}

/// A response is refused only for what is wrong with it, and the error says what
/// that is. The framing fields of an answer without a body are not looked at.
pub proof fn response_refusal_has_a_reason(
    head: ResponseHead,
    method: &Method,
    result: Result<ValidatedResponseHead, HeadError>,
)
    requires
        reads_response(head, method, result),
    ensures
        head@.status > 599 ==> (result matches Err(error) && error == HeadError::InvalidStatus),
        result matches Err(error) ==> {
            let options = held(head.headers, "connection");
            let protocols = held(head.headers, "upgrade");
            ||| error == HeadError::InvalidStatus && head@.status > 599
            ||| error == HeadError::InvalidConnection && !lists_tokens(options)
            ||| error == HeadError::InvalidUpgrade && head@.status == 101 && (head.version
                != Version::Http11 || !lists(options, "upgrade") || lists(options, "close")
                || protocols.len() == 0 || !lists_protocols(protocols))
            ||| framing_error(error) && !rules_out_body(head@.status, method@) && !frames(
                held(head.headers, "content-length"),
                held(head.headers, "transfer-encoding"),
                head.version,
            )
        },
{
    framing_is_declared(fields::entries(head.headers), head.version);
    connection_is_listed(held(head.headers, "connection"));
    values_have_members(held(head.headers, "upgrade"));
}

/// A receiver overlooks what an HTTP/1.0 request expects and what it would upgrade to,
/// as long as its expectation is one that there is; a sender is refused both.
pub proof fn old_requests_ask_for_neither(
    head: RequestHead,
    received: Result<ValidatedRequestHead, HeadError>,
    sent: Result<ValidatedRequestHead, HeadError>,
)
    requires
        call_ensures(RequestHead::validate_received, (head,), received),
        call_ensures(RequestHead::validate, (head,), sent),
        head.version == Version::Http10,
    ensures
        expects_only_continue(held(head.headers, "expect")) ==> !(received matches Err(error)
            && error == HeadError::InvalidExpectation),
        !(received matches Err(error) && error == HeadError::InvalidUpgrade),
        held(head.headers, "expect").len() > 0 ==> sent is Err,
        head.method@ != message::method_named("CONNECT") && (held(head.headers, "upgrade").len() > 0
            || lists(held(head.headers, "connection"), "upgrade")) ==> sent is Err,
        received matches Ok(request) ==> request.expectation == Expectation::Absent && (
        request.upgrade is None || request.upgrade == Some(UpgradeKind::Tunnel)),
{
    host_is_no_other_name();
    other_fields_are_kept(head@, true);
    other_fields_are_kept(head@, false);
    if let Some((authority, _)) = head@.target.authority {
        let host = fields::named("host");
        codec_laws::inserted_is_found(head@.headers, host, authority, fields::named("expect"));
        codec_laws::inserted_is_found(head@.headers, host, authority, fields::named("upgrade"));
        codec_laws::inserted_is_found(head@.headers, host, authority, fields::named("connection"));
        framing_is_declared(fields::inserted(head@.headers, host, authority), head.version);
    }
    framing_is_declared(head@.headers, head.version);
    connection_is_listed(held(head.headers, "connection"));
    values_have_members(held(head.headers, "expect"));
    values_have_members(held(head.headers, "upgrade"));
}

/// A tunnel is asked for by its method alone: the upgrade fields of a CONNECT request
/// are not looked at.
pub proof fn tunnels_need_no_upgrade(
    head: RequestHead,
    result: Result<ValidatedRequestHead, HeadError>,
)
    requires
        reads_request(head, result),
        head.method@ == message::method_named("CONNECT"),
    ensures
        !(result matches Err(error) && error == HeadError::InvalidUpgrade),
{
    if let Some((authority, _)) = head@.target.authority {
        let host = fields::named("host");
        let headers = fields::inserted(head@.headers, host, authority);
        framing_is_declared(headers, head.version);
        connection_is_listed(fields::values_of(headers, fields::named("connection")));
    }
    framing_is_declared(head@.headers, head.version);
    connection_is_listed(held(head.headers, "connection"));
}

/// Two lengths that differ, or a length beside a coding, make the end of a body
/// ambiguous; a length that is none, and a coding that is none or that HTTP/1.0 does
/// not have, are told from that.
pub proof fn ambiguous_lengths_are_told_apart(
    lengths: Seq<Seq<u8>>,
    codings: Seq<Seq<u8>>,
    headers: HeaderMap,
    version: Version,
    result: Result<Option<BodyMode>, HeadError>,
)
    requires
        result == validate::framing_of(fields::entries(headers), version),
        lengths == held(headers, "content-length"),
        codings == held(headers, "transfer-encoding"),
    ensures
        forall|length: u64| #[trigger]
            all_state(lengths, length) && only_chunked(codings) ==> result == Err::<
                Option<BodyMode>,
                _,
            >(HeadError::AmbiguousMessageLength),
        lengths.len() == 0 && only_chunked(codings) && version != Version::Http11 ==> result
            == Err::<Option<BodyMode>, _>(HeadError::InvalidTransferEncoding),
        result == Err::<Option<BodyMode>, _>(HeadError::AmbiguousMessageLength) && codings.len()
            == 0 ==> exists|i: int, j: int|
            0 <= i < j < values::all_members(lengths).0.len() && values::stated_length(
                #[trigger] values::all_members(lengths).0[i],
            ) != values::stated_length(#[trigger] values::all_members(lengths).0[j]),
        values::all_members(lengths).0.len() > 0 && values::stated_length(
            values::all_members(lengths).0[0],
        ) is None ==> result == Err::<Option<BodyMode>, _>(HeadError::InvalidContentLength),
        values::all_members(lengths).0.len() > 1 && values::stated_length(
            values::all_members(lengths).0[0],
        ) is Some && values::stated_length(values::all_members(lengths).0[1]) is Some
            && values::stated_length(values::all_members(lengths).0[0]) != values::stated_length(
            values::all_members(lengths).0[1],
        ) ==> result == Err::<Option<BodyMode>, _>(HeadError::AmbiguousMessageLength),
{
    length_is_stated(lengths);
    coding_is_named(codings);
    let listed = values::all_members(lengths).0;
    reveal_with_fuel(values::agreed_length, 3);
    if listed.len() > 1 {
        assert(listed.skip(1)[0] == listed[1]);
    }
    if values::agreed_length(listed, None) == Err::<Option<u64>, _>(
        HeadError::AmbiguousMessageLength,
    ) {
        ambiguity_has_two_lengths(listed, None);
    }
}

proof fn ambiguity_has_two_lengths(stated: Seq<Seq<u8>>, before: Option<u64>)
    requires
        values::agreed_length(stated, before) == Err::<Option<u64>, _>(
            HeadError::AmbiguousMessageLength,
        ),
    ensures
        before is None ==> exists|i: int, j: int|
            0 <= i < j < stated.len() && values::stated_length(#[trigger] stated[i])
                != values::stated_length(#[trigger] stated[j]),
        before is Some ==> exists|i: int|
            0 <= i < stated.len() && values::stated_length(#[trigger] stated[i]) != before,
    decreases stated.len(),
{
    let rest = stated.skip(1);
    let first = values::stated_length(stated[0]);
    if before is Some && first != before {
    } else {
        ambiguity_has_two_lengths(rest, first);
        let j = choose|i: int|
            0 <= i < rest.len() && values::stated_length(#[trigger] rest[i]) != first;
        assert(rest[j] == stated[j + 1]);
        assert(values::stated_length(stated[0]) != values::stated_length(stated[j + 1]));
    }
}

/// The framing fields of a message are read as what they state: a length where every
/// member of them states it, the chunked coding where it is all that is named, and
/// nothing where there are none.
pub proof fn framing_fields_are_read(
    headers: &HeaderMap,
    length: Result<Option<u64>, HeadError>,
    coding: Result<Option<values::TransferFraming>, HeadError>,
)
    requires
        call_ensures(validate::parse_content_length, (headers,), length),
        call_ensures(validate::parse_transfer_encoding, (headers,), coding),
    ensures
        length matches Ok(Some(stated)) ==> all_state(held(*headers, "content-length"), stated),
        forall|stated: u64| #[trigger]
            all_state(held(*headers, "content-length"), stated) ==> length == Ok::<
                Option<u64>,
                HeadError,
            >(Some(stated)),
        (length matches Ok(None)) <==> held(*headers, "content-length").len() == 0,
        (coding matches Ok(Some(_))) <==> only_chunked(held(*headers, "transfer-encoding")),
        (coding matches Ok(None)) <==> held(*headers, "transfer-encoding").len() == 0,
{
    length_is_stated(held(*headers, "content-length"));
    coding_is_named(held(*headers, "transfer-encoding"));
}

/// The parts of a request are looked at as the whole is: its target by its form, its host
/// by its fields, and its connection by its version and options.
pub proof fn parts_are_looked_at(
    method: &Method,
    target: &message::Target,
    form: Result<TargetForm, HeadError>,
    headers: &HeaderMap,
    version: Version,
    host: Result<(), HeadError>,
    options: ConnectionOptions,
    lasting: Persistence,
)
    requires
        call_ensures(validate::validate_request_target, (method, target), form),
        call_ensures(validate::validate_host, (headers, version), host),
        call_ensures(validate::persistence, (version, options), lasting),
    ensures
        form is Ok <==> target_goes(method@, target@),
        form matches Err(error) ==> error == HeadError::InvalidTargetForm,
        host is Ok <==> (held(*headers, "host").len() == 0 && version != Version::Http11) || (held(
            *headers,
            "host",
        ).len() == 1 && names_host(held(*headers, "host")[0])),
        host == Err::<(), _>(HeadError::MissingHost) <==> held(*headers, "host").len() == 0
            && version == Version::Http11,
        host matches Err(error) ==> error == HeadError::MissingHost || error
            == HeadError::InvalidHost,
        lasting == Persistence::Reusable <==> !options.close && (version != Version::Http10
            || options.keep_alive),
{
    let star = seq![0x2au8];
    assert(validate::asterisk() =~= star);
    assert(star[0] == 0x2a);
    assert(COMMA == 0x2c);
}

} // verus!
