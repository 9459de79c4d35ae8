//! What holds of heads on their way from lines to parts.

use crate::ascii;
use crate::body::Buffer;
use crate::message::{Method, StatusCode, Version};
use crate::outside::fields;
use crate::outside::start_line;
use crate::outside::wire::{self, RawField, RawRequest, RawResponse};
use crate::proto::h1::head::{
    self, HeadError, HeadLimit, HeadLimits, HeadParser, HeaderWorkspace, RequestHead,
    RequestRole, ResponseHead, ResponseRole,
};
use crate::proto::h1::header_case::HeaderCaseMap;
use crate::proto::h1::inline::InlineBuf;
use crate::proto::h1::scan;
use crate::proto::h1::server_laws::appended_is_found;
use crate::proto::h1::syntax;
use http::{HeaderMap, HeaderName};
use vstd::prelude::*;

verus! {

/// The versions that are read are 1.0 and 1.1.
pub proof fn two_versions_are_read(minor: u8, result: Result<Version, HeadError>)
    requires
        call_ensures(head::version, (minor,), result),
    ensures
        result == Ok::<Version, HeadError>(Version::Http10) <==> minor == 0,
        result == Ok::<Version, HeadError>(Version::Http11) <==> minor == 1,
        minor > 1 ==> result == Err::<Version, HeadError>(HeadError::UnsupportedVersion),
{
}

/// A status has three digits, which tell whether it is informational or a success and
/// which are written one by one.
pub proof fn statuses_have_three_digits(
    code: u16,
    result: Option<StatusCode>,
    status: StatusCode,
    number: u16,
    informational: bool,
    success: bool,
    digits: Vec<u8>,
)
    requires
        call_ensures(StatusCode::from_u16, (code,), result),
        call_ensures(StatusCode::as_u16, (&status,), number),
        call_ensures(StatusCode::is_informational, (&status,), informational),
        call_ensures(StatusCode::is_success, (&status,), success),
        call_ensures(StatusCode::digits, (&status,), digits),
    ensures
        result is Some <==> 100 <= code && code <= 999,
        result matches Some(made) ==> made.number() == code,
        100 <= number <= 999,
        number == status.number(),
        informational <==> number / 100 == 1,
        success <==> number / 100 == 2,
        digits@.len() == 3,
        number == 100 * (digits@[0] - 0x30) + 10 * (digits@[1] - 0x30) + (digits@[2] - 0x30),
        forall|i: int| 0 <= i < 3 ==> 0x30 <= #[trigger] digits@[i] <= 0x39,
{
    let code = number as int;
    assert(code == 100 * (code / 100) + code % 100);
    assert(code / 10 % 10 == (code % 100) / 10) by (nonlinear_arith)
        requires
            0 <= code <= 999,
    ;
    assert(code % 10 == (code % 100) % 10) by (nonlinear_arith)
        requires
            0 <= code <= 999,
    ;
}

/// A method is a token and is told apart by every byte of it.
pub proof fn methods_are_tokens(
    text: &[u8],
    result: Option<Method>,
    method: Method,
    copy: Method,
    named: &'static str,
    same: bool,
    bytes: &[u8],
)
    requires
        call_ensures(Method::from_bytes, (text,), result),
        call_ensures(Method::copy, (&method,), copy),
        call_ensures(Method::is, (&method, named), same),
        call_ensures(Method::as_bytes, (&method,), bytes),
    ensures
        result is Some <==> text@.len() > 0 && (forall|i: int|
            0 <= i < text@.len() ==> syntax::token_byte(#[trigger] text@[i])),
        result matches Some(made) ==> made@ == text@,
        copy@ == method@,
        bytes@ == method@,
        same <==> method@ == vstd::utf8::encode_utf8(named@),
{
}

/// Whether two names are the same but for the case of their letters.
pub open spec fn same_name(left: Seq<u8>, right: Seq<u8>) -> bool {
    ascii::lowered(left) == ascii::lowered(right)
}

/// The values of the lines of one name, in the order of the lines.
pub open spec fn values_of(lines: Seq<(Seq<u8>, Seq<u8>)>, name: Seq<u8>) -> Seq<Seq<u8>>
    decreases lines.len(),
{
    if lines.len() == 0 {
        Seq::empty()
    } else if same_name(lines.last().0, name) {
        values_of(lines.drop_last(), name).push(lines.last().1)
    } else {
        values_of(lines.drop_last(), name)
    }
}

proof fn gathered_by_name(lines: Seq<(Seq<u8>, Seq<u8>)>, name: Seq<u8>)
    ensures
        fields::values_of(head::gathered(lines), ascii::lowered(name)) == values_of(lines, name),
    decreases lines.len(),
{
    if lines.len() > 0 {
        let before = lines.drop_last();
        gathered_by_name(before, name);
        appended_is_found(
            head::gathered(before),
            ascii::lowered(lines.last().0),
            lines.last().1,
            ascii::lowered(name),
        );
    }
}

/// The fields of received lines hold, under each name and whatever the case of its
/// letters, the values of the lines of that name, all of them and in their order.
/// Lines are refused for a name or a value that none can have, or for their number.
pub proof fn lines_are_gathered_by_name(
    lines: Vec<RawField>,
    name: Seq<u8>,
    result: Result<HeaderMap, HeadError>,
)
    requires
        call_ensures(head::own_headers, (lines,), result),
    ensures
        result matches Ok(map) ==> fields::values_of(fields::entries(map), ascii::lowered(name))
            == values_of(wire::field_views(lines@), name),
        result is Ok ==> forall|i: int|
            0 <= i < lines@.len() ==> fields::is_name(#[trigger] lines@[i]@.0) && fields::is_value(
                lines@[i]@.1,
            ),
        result == Err::<HeaderMap, _>(HeadError::InvalidHeader) ==> exists|i: int|
            0 <= i < lines@.len() && !(fields::is_name(#[trigger] lines@[i]@.0) && fields::is_value(
                lines@[i]@.1,
            )),
        result matches Err(error) ==> error == HeadError::InvalidHeader || error
            == HeadError::Limit(HeadLimit::HeaderMap),
{
    let views = wire::field_views(lines@);
    gathered_by_name(views, name);
    if result is Ok {
        assert forall|i: int| 0 <= i < lines@.len() implies fields::is_name(
            #[trigger] lines@[i]@.0,
        ) && fields::is_value(lines@[i]@.1) by {
            assert(head::is_field(views[i]));
        }
    }
    if result == Err::<HeaderMap, _>(HeadError::InvalidHeader) {
        let i = choose|i: int| 0 <= i < views.len() && !head::is_field(#[trigger] views[i]);
        assert(views[i] == lines@[i]@);
    }
}

/// A request head is built of its start line and its lines: it is refused for a method
/// that is no token, a target that none can be, a version that is not read, or a part
/// that is missing, each as what it is.
pub proof fn request_heads_are_built(raw: RawRequest, result: Result<RequestHead, HeadError>)
    requires
        call_ensures(head::build_request_head, (raw,), result),
        !head::crowded(raw@.fields),
    ensures
        result matches Ok(head) ==> raw@.method == Some(head@.method) && raw@.path is Some
            && start_line::parsed_target(raw@.path->0) == Some(head@.target) && (raw@.version
            == Some(0u8) && head@.version == Version::Http10 || raw@.version == Some(1u8)
            && head@.version == Version::Http11),
        raw@.method is None || raw@.path is None || raw@.version is None ==> result is Err,
        result == Err::<RequestHead, _>(HeadError::InvalidMethod) <==> (raw@.method matches Some(
            text,
        ) && !syntax::is_token_text(text)),
        result == Err::<RequestHead, _>(HeadError::InvalidTarget) ==> (raw@.path matches Some(text)
            && start_line::parsed_target(text) is None),
        result == Err::<RequestHead, _>(HeadError::UnsupportedVersion) ==> (
        raw@.version matches Some(minor) && minor > 1),
        result == Err::<RequestHead, _>(HeadError::InvalidStartLine) ==> raw@.method is None
            || raw@.path is None || raw@.version is None,
{
}

/// A response head is built of its start line and its lines: it is refused for a
/// version that is not read, a status that is none of the five classes, or a part that
/// is missing, each as what it is.
pub proof fn response_heads_are_built(raw: RawResponse, result: Result<ResponseHead, HeadError>)
    requires
        call_ensures(head::build_response_head, (raw,), result),
        !head::crowded(raw@.fields),
    ensures
        result matches Ok(head) ==> raw@.code == Some(head@.status) && 1 <= head@.status / 100 <= 5
            && (raw@.version == Some(0u8) && head@.version == Version::Http10 || raw@.version
            == Some(1u8) && head@.version == Version::Http11),
        raw@.version is None || raw@.code is None ==> result is Err,
        result == Err::<ResponseHead, _>(HeadError::InvalidStatus) ==> (raw@.code matches Some(code)
            && !(1 <= code / 100 <= 5)),
        (raw@.version matches Some(minor) && minor <= 1) && (raw@.code matches Some(code) && !(1
            <= code / 100 <= 5)) ==> result == Err::<ResponseHead, _>(HeadError::InvalidStatus),
        result == Err::<ResponseHead, _>(HeadError::UnsupportedVersion) <==> (
        raw@.version matches Some(minor) && minor > 1),
        result == Err::<ResponseHead, _>(HeadError::InvalidStartLine) ==> raw@.version is None
            || raw@.code is None,
{
}

/// A head that is too long for its limit is refused as such where it does not end
/// within it; one that ends within the limit is found, and one that may still end there
/// is waited for.
pub proof fn heads_are_found_within_limits(
    parser: &mut HeadParser<RequestRole>,
    input: &[u8],
    result: Result<Option<usize>, HeadError>,
)
    requires
        call_ensures(HeadParser::<RequestRole>::head_len, (parser, input), result),
        old(parser).follows(input@),
    ensures
        result matches Ok(Some(length)) ==> length <= input@.len() && length <= old(
            parser
        ).limits.max_bytes,
        result matches Err(error) ==> error == HeadError::Limit(HeadLimit::Bytes) && input@.len()
            > old(parser).limits.max_bytes,
        input@.len() > old(parser).limits.max_bytes ==> !(result matches Ok(None)),
        final(parser).limits == old(parser).limits,
{
}

/// A parser is given as many slots as its limit says, and no more than there are bytes.
pub proof fn slots_follow_the_input(
    capacity: usize,
    workspace: HeaderWorkspace,
    input: &[u8],
    slots: usize,
    limits: HeadLimits,
    requests: HeadParser<RequestRole>,
    responses: HeadParser<ResponseRole>,
)
    requires
        call_ensures(HeaderWorkspace::new, (capacity,), workspace),
        call_ensures(HeaderWorkspace::slots_for, (&workspace, input), slots),
        call_ensures(HeadParser::<RequestRole>::request, (limits,), requests),
        call_ensures(HeadParser::<ResponseRole>::response, (limits,), responses),
    ensures
        slots <= capacity && slots <= input@.len(),
        slots == capacity || slots == input@.len(),
        requests.limits == limits && requests.workspace.slots == limits.max_headers,
        responses.limits == limits && responses.workspace.slots == limits.max_headers,
{
}

/// Why a malformed head is refused: for the number of its fields, for a field, for its
/// version, or for its start line.
pub open spec fn refused_as(fault: wire::SyntaxError) -> HeadError {
    if fault is TooManyHeaders {
        HeadError::Limit(HeadLimit::Headers)
    } else if fault is HeaderName || fault is HeaderValue {
        HeadError::InvalidHeader
    } else if fault is Version {
        HeadError::UnsupportedVersion
    } else {
        HeadError::InvalidStartLine
    }
}

/// A whole head within its limit that is malformed is refused as what is malformed in
/// it, one longer than its limit as such, and one that does not end with its input for
/// its start line.
pub proof fn malformed_requests_are_told_apart(
    parser: &mut HeadParser<RequestRole>,
    input: bytes::Bytes,
    result: Result<RequestHead, HeadError>,
)
    requires
        call_ensures(HeadParser::<RequestRole>::parse_shared, (parser, input), result),
    ensures
        ({
            let text = crate::outside::octets::octets(input);
            let most = old(parser).limits.max_bytes;
            let slots = if old(parser).limits.max_headers < text.len() {
                old(parser).limits.max_headers as nat
            } else {
                text.len()
            };
            let parsed = wire::parsed_request(text, slots);
            &&& (text.len() > most && !(parsed matches Ok(Some(_))) ==> result == Err::<
                RequestHead,
                _,
            >(HeadError::Limit(HeadLimit::Bytes)))
            &&& (text.len() > most ==> result is Err)
            &&& (text.len() <= most ==> (parsed matches Err(fault) ==> result == Err::<
                RequestHead,
                _,
            >(refused_as(fault))))
            &&& (text.len() <= most ==> (parsed matches Ok(None) ==> result == Err::<
                RequestHead,
                _,
            >(HeadError::InvalidStartLine)))
            &&& (parsed matches Ok(Some(raw)) ==> (raw.consumed != text.len() ==> result is Err))
        }),
{
}

/// The same of responses.
pub proof fn malformed_responses_are_told_apart(
    parser: &mut HeadParser<ResponseRole>,
    input: bytes::Bytes,
    result: Result<ResponseHead, HeadError>,
)
    requires
        call_ensures(HeadParser::<ResponseRole>::parse_shared, (parser, input), result),
    ensures
        ({
            let text = crate::outside::octets::octets(input);
            let most = old(parser).limits.max_bytes;
            let slots = if old(parser).limits.max_headers < text.len() {
                old(parser).limits.max_headers as nat
            } else {
                text.len()
            };
            let parsed = wire::parsed_response(text, slots);
            &&& (text.len() > most && !(parsed matches Ok(Some(_))) ==> result == Err::<
                ResponseHead,
                _,
            >(HeadError::Limit(HeadLimit::Bytes)))
            &&& (text.len() > most ==> result is Err)
            &&& (text.len() <= most ==> (parsed matches Err(fault) ==> result == Err::<
                ResponseHead,
                _,
            >(refused_as(fault))))
            &&& (text.len() <= most ==> (parsed matches Ok(None) ==> result == Err::<
                ResponseHead,
                _,
            >(HeadError::InvalidStartLine)))
            &&& (parsed matches Ok(Some(raw)) ==> (raw.consumed != text.len() ==> result is Err))
        }),
{
}

/// A head that starts with this byte, behind line ends alone, and fits its limit is found
/// where an empty line follows it, and reaches to the end of the first of them.
pub proof fn heads_end_with_an_empty_line<R>(
    parser: &mut HeadParser<R>,
    input: &[u8],
    first: int,
    result: Result<Option<usize>, HeadError>,
)
    requires
        call_ensures(HeadParser::<R>::head_len, (parser, input), result),
        old(parser).follows(input@),
        0 <= first < input@.len(),
        input@[first] != '\r' as u8 && input@[first] != '\n' as u8,
        forall|i: int|
            0 <= i < first ==> #[trigger] input@[i] == '\r' as u8 || input@[i] == '\n' as u8,
        input@.len() <= old(parser).limits.max_bytes,
    ensures
        result is Ok,
        result matches Ok(Some(length)) ==> 0 < length <= input@.len() && scan::empty_line_behind(
            input@,
            first,
            length - 1,
        ),
        result matches Ok(Some(length)) ==> forall|i: int|
            0 <= i < length - 1 ==> !#[trigger] scan::empty_line_behind(input@, first, i),
        result matches Ok(None) ==> forall|i: int|
            0 <= i < input@.len() ==> !#[trigger] scan::empty_line_behind(input@, first, i),
{
    let most = old(parser).limits.max_bytes as int;
    if input@.len() == most {
        assert(input@.take(most) =~= input@);
    }
    scan::first_empty_line_ends_the_head(input@, first);
}

/// The spellings of a name are those of its lines, in their order, and those of no other
/// name.
pub proof fn spellings_are_kept_by_name(
    fresh: HeaderCaseMap,
    map: &mut HeaderCaseMap,
    name: HeaderName,
    original: bytes::Bytes,
    same: Vec<&[u8]>,
    other: &HeaderName,
    others: Vec<&[u8]>,
)
    requires
        call_ensures(HeaderCaseMap::new, (), fresh),
        call_ensures(HeaderCaseMap::append, (map, name, original), ()),
        call_ensures(HeaderCaseMap::get_all, (&*final(map), &name), same),
        call_ensures(HeaderCaseMap::get_all, (&*final(map), other), others),
        fields::name_text(*other) != fields::name_text(name),
    ensures
        fresh@.len() == 0,
        fields::views(same@) == fields::values_of(old(map)@, fields::name_text(name)).push(
            crate::outside::octets::octets(original),
        ),
        fields::views(others@) == fields::values_of(old(map)@, fields::name_text(*other)),
{
    appended_is_found(
        old(map)@,
        fields::name_text(name),
        crate::outside::octets::octets(original),
        fields::name_text(*other),
    );
}

/// A short text is held as it was put in.
pub proof fn short_texts_are_held<const N: usize>(
    none: InlineBuf<N>,
    bytes: [u8; N],
    length: usize,
    some: InlineBuf<N>,
)
    requires
        call_ensures(InlineBuf::<N>::empty, (), none),
        call_ensures(InlineBuf::<N>::from_parts, (bytes, length), some),
        length <= N,
    ensures
        none.contents().len() == 0,
        some.contents().len() == length,
        forall|i: int| 0 <= i < length ==> #[trigger] some.contents()[i] == bytes@[i],
{
}

} // verus!
