//! Header fields of the `http` crate.

use crate::ascii::{self, TAB};
use crate::outside::octets;
use crate::proto::h1::syntax;
use bytes::Bytes;
use http::{HeaderMap, HeaderName, HeaderValue};
use vstd::prelude::*;

verus! {

/// `http::HeaderMap`, a multimap from field names to values.
#[verifier::external_type_specification]
#[verifier::external_body]
#[verifier::reject_recursive_types(T)]
pub struct ExHeaderMap<T>(http::HeaderMap<T>);

/// `http::HeaderName`, a checked field name in small letters.
#[verifier::external_type_specification]
#[verifier::external_body]
pub struct ExHeaderName(http::HeaderName);

/// `http::HeaderValue`, a checked field value.
#[verifier::external_type_specification]
#[verifier::external_body]
pub struct ExHeaderValue(http::HeaderValue);

/// The fields of a map in the order in which it is walked: each name once, with
/// its values in the order in which they were added.
pub uninterp spec fn entries(map: HeaderMap) -> Seq<(Seq<u8>, Seq<Seq<u8>>)>;

/// The text of a field name.
pub uninterp spec fn name_text(name: HeaderName) -> Seq<u8>;

/// The bytes of a field value.
pub uninterp spec fn value_text(value: HeaderValue) -> Seq<u8>;

/// The values that the fields hold under a name.
pub open spec fn values_of(fields: Seq<(Seq<u8>, Seq<Seq<u8>>)>, name: Seq<u8>) -> Seq<Seq<u8>>
    decreases fields.len(),
{
    if fields.len() == 0 {
        Seq::empty()
    } else if fields[0].0 == name {
        fields[0].1
    } else {
        values_of(fields.skip(1), name)
    }
}

/// Whether the fields hold a name.
pub open spec fn has_name(fields: Seq<(Seq<u8>, Seq<Seq<u8>>)>, name: Seq<u8>) -> bool {
    exists|i: int| 0 <= i < fields.len() && (#[trigger] fields[i]).0 == name
}

/// The fields with a value added behind the other values of its name; a name
/// that is new comes last.
pub open spec fn appended(
    fields: Seq<(Seq<u8>, Seq<Seq<u8>>)>,
    name: Seq<u8>,
    value: Seq<u8>,
) -> Seq<(Seq<u8>, Seq<Seq<u8>>)>
    decreases fields.len(),
{
    if fields.len() == 0 {
        seq![(name, seq![value])]
    } else if fields[0].0 == name {
        seq![(name, fields[0].1.push(value))] + fields.skip(1)
    } else {
        seq![fields[0]] + appended(fields.skip(1), name, value)
    }
}

/// The fields with one value in place of all values of its name; a name that is
/// new comes last.
pub open spec fn inserted(
    fields: Seq<(Seq<u8>, Seq<Seq<u8>>)>,
    name: Seq<u8>,
    value: Seq<u8>,
) -> Seq<(Seq<u8>, Seq<Seq<u8>>)>
    decreases fields.len(),
{
    if fields.len() == 0 {
        seq![(name, seq![value])]
    } else if fields[0].0 == name {
        seq![(name, seq![value])] + fields.skip(1)
    } else {
        seq![fields[0]] + inserted(fields.skip(1), name, value)
    }
}

/// One field line for each value, in the order of the fields.
pub open spec fn lines(fields: Seq<(Seq<u8>, Seq<Seq<u8>>)>) -> Seq<(Seq<u8>, Seq<u8>)>
    decreases fields.len(),
{
    if fields.len() == 0 {
        Seq::empty()
    } else {
        Seq::new(fields[0].1.len(), |i: int| (fields[0].0, fields[0].1[i])) + lines(fields.skip(1))
    }
}

/// The field name that a text stands for, whatever the case of its letters.
pub open spec fn named(text: &str) -> Seq<u8> {
    ascii::lowered(vstd::utf8::encode_utf8(text@))
}

/// The longest field name that the map takes.
pub const MAX_NAME: usize = 65535;

/// The number of slots that a map can have.
pub const MAX_SLOTS: usize = 32768;

/// A field name: a token of bounded length.
pub open spec fn is_name(text: Seq<u8>) -> bool {
    syntax::is_token_text(text) && text.len() <= MAX_NAME
}

/// A byte of a field value.
pub open spec fn value_byte(byte: u8) -> bool {
    byte == TAB || (byte >= 0x20 && byte != 0x7f)
}

/// A field value: no control bytes but tabs.
pub open spec fn is_value(text: Seq<u8>) -> bool {
    forall|i: int| 0 <= i < text.len() ==> value_byte(#[trigger] text[i])
}

/// Whether room for so many fields can be set aside.
pub open spec fn fits(count: nat) -> bool {
    count + count / 3 <= MAX_SLOTS
}

/// Whether one more field is taken whatever the names hash to.
pub open spec fn roomy(fields: Seq<(Seq<u8>, Seq<Seq<u8>>)>) -> bool {
    5 * fields.len() < MAX_SLOTS
}

/// Whether a second field more might be refused.
pub open spec fn nearly_full(fields: Seq<(Seq<u8>, Seq<Seq<u8>>)>) -> bool {
    5 * (fields.len() + 1) >= MAX_SLOTS
}

/// An inserted field takes the place of one of its name, or is one more.
pub proof fn inserted_len(
    fields: Seq<(Seq<u8>, Seq<Seq<u8>>)>,
    name: Seq<u8>,
    value: Seq<u8>,
)
    ensures
        inserted(fields, name, value).len() <= fields.len() + 1,
    decreases fields.len(),
{
    if fields.len() > 0 && fields[0].0 != name {
        inserted_len(fields.skip(1), name, value);
    }
}

/// An appended value joins the others of its name, or is one more field.
pub proof fn appended_len(
    fields: Seq<(Seq<u8>, Seq<Seq<u8>>)>,
    name: Seq<u8>,
    value: Seq<u8>,
)
    ensures
        appended(fields, name, value).len() <= fields.len() + 1,
    decreases fields.len(),
{
    if fields.len() > 0 && fields[0].0 != name {
        appended_len(fields.skip(1), name, value);
    }
}

pub open spec fn views(values: Seq<&[u8]>) -> Seq<Seq<u8>> {
    Seq::new(values.len(), |i: int| values[i]@)
}

/// `HeaderMap::new`: a map without fields.
#[verifier::external_body]
pub(crate) fn empty() -> (result: HeaderMap)
    ensures
        entries(result) == Seq::<(Seq<u8>, Seq<Seq<u8>>)>::empty(),
{
    HeaderMap::new()
}

/// `HeaderMap::try_with_capacity`: a map without fields, unless the room asked
/// for, with a third more for its index, exceeds what a map can have.
#[verifier::external_body]
pub(crate) fn with_capacity(count: usize) -> (result: Option<HeaderMap>)
    ensures
        result is Some <==> fits(count as nat),
        result is Some ==> entries(result->0) == Seq::<(Seq<u8>, Seq<Seq<u8>>)>::empty(),
{
    HeaderMap::try_with_capacity(count).ok()
}

/// `HeaderName::from_bytes`: accepts tokens of bounded length and holds them in
/// small letters.
#[verifier::external_body]
pub(crate) fn name(text: &[u8]) -> (result: Option<HeaderName>)
    ensures
        result is Some <==> is_name(text@),
        result is Some ==> name_text(result->0) == ascii::lowered(text@),
{
    HeaderName::from_bytes(text).ok()
}

/// `HeaderValue::from_bytes`: accepts text without control bytes and keeps it.
#[verifier::external_body]
pub(crate) fn value(text: &[u8]) -> (result: Option<HeaderValue>)
    ensures
        result is Some <==> is_value(text@),
        result is Some ==> value_text(result->0) == text@,
{
    HeaderValue::from_bytes(text).ok()
}

/// `HeaderValue::from_maybe_shared` on a shared buffer: accepts text without
/// control bytes and keeps the buffer.
#[verifier::external_body]
pub(crate) fn shared_value(text: Bytes) -> (result: Option<HeaderValue>)
    ensures
        result is Some <==> is_value(octets::octets(text)),
        result is Some ==> value_text(result->0) == octets::octets(text),
{
    HeaderValue::from_maybe_shared(text).ok()
}

/// `<HeaderValue as Clone>::clone`: another value of the same text.
#[verifier::external_body]
pub(crate) fn same_value(value: &HeaderValue) -> (result: HeaderValue)
    ensures
        value_text(result) == value_text(*value),
{
    value.clone()
}

/// `HeaderMap::try_append`: adds a value behind the others of its name. It is
/// refused, and the fields stay as they were, when the map would outgrow its
/// index. How early that happens depends on how the names hash; a map that uses
/// less than a fifth of the slots never refuses.
#[verifier::external_body]
pub(crate) fn append(map: &mut HeaderMap, name: HeaderName, value: HeaderValue) -> (result: bool)
    ensures
        result ==> entries(*final(map)) == appended(
            entries(*old(map)),
            name_text(name),
            value_text(value),
        ),
        !result ==> entries(*final(map)) == entries(*old(map)),
        roomy(entries(*old(map))) ==> result,
{
    map.try_append(name, value).is_ok()
}

/// `HeaderMap::try_insert`: puts a value in place of all values of its name. It
/// is refused as `append` is.
#[verifier::external_body]
pub(crate) fn insert(map: &mut HeaderMap, name: HeaderName, value: HeaderValue) -> (result: bool)
    ensures
        result ==> entries(*final(map)) == inserted(
            entries(*old(map)),
            name_text(name),
            value_text(value),
        ),
        !result ==> entries(*final(map)) == entries(*old(map)),
        roomy(entries(*old(map))) ==> result,
{
    map.try_insert(name, value).is_ok()
}

/// `HeaderMap::get_all`: the values of a name in order, none for a name that the
/// map does not hold. The case of the name does not matter.
#[verifier::external_body]
pub(crate) fn values<'a>(map: &'a HeaderMap, name: &str) -> (result: Vec<&'a [u8]>)
    ensures
        views(result@) == values_of(entries(*map), named(name)),
{
    map.get_all(name).iter().map(HeaderValue::as_bytes).collect()
}

/// `HeaderMap::contains_key`: whether the map holds a name, in any case.
#[verifier::external_body]
pub(crate) fn contains(map: &HeaderMap, name: &str) -> (result: bool)
    ensures
        result == has_name(entries(*map), named(name)),
{
    map.contains_key(name)
}

/// `HeaderMap::keys`: each name once, in the order of the fields.
#[verifier::external_body]
pub(crate) fn names(map: &HeaderMap) -> (result: Vec<&[u8]>)
    ensures
        views(result@) == Seq::new(entries(*map).len(), |i: int| entries(*map)[i].0),
{
    map.keys().map(|name| name.as_str().as_bytes()).collect()
}

/// `HeaderMap::iter`: one name and value for each field line, in order.
#[verifier::external_body]
pub(crate) fn field_lines(map: &HeaderMap) -> (result: Vec<(&[u8], &[u8])>)
    ensures
        Seq::new(result@.len(), |i: int| (result@[i].0@, result@[i].1@)) == lines(entries(*map)),
{
    map.iter().map(|(name, value)| (name.as_str().as_bytes(), value.as_bytes())).collect()
}

/// The names that a map of spellings holds, each with its spellings in order.
pub uninterp spec fn spellings(map: HeaderMap<Bytes>) -> Seq<(Seq<u8>, Seq<Seq<u8>>)>;

/// `HeaderMap::default` for a map of spellings: a map without names.
#[verifier::external_body]
pub(crate) fn no_spellings() -> (result: HeaderMap<Bytes>)
    ensures
        spellings(result) == Seq::<(Seq<u8>, Seq<Seq<u8>>)>::empty(),
{
    HeaderMap::default()
}

/// `HeaderMap::append` for a map of spellings: adds one behind the others of its
/// name. The call panics when the map outgrows its index, which a map that uses
/// less than a fifth of the slots never does.
#[verifier::external_body]
pub(crate) fn append_spelling(map: &mut HeaderMap<Bytes>, name: HeaderName, spelling: Bytes)
    requires
        roomy(spellings(*old(map))),
    ensures
        spellings(*final(map)) == appended(
            spellings(*old(map)),
            name_text(name),
            octets::octets(spelling),
        ),
{
    map.append(name, spelling);
}

/// `HeaderMap::get_all` for a map of spellings: those of a name in order.
#[verifier::external_body]
pub(crate) fn spellings_of<'a>(map: &'a HeaderMap<Bytes>, name: &HeaderName) -> (result: Vec<
    &'a [u8],
>)
    ensures
        views(result@) == values_of(spellings(*map), name_text(*name)),
{
    map.get_all(name).iter().map(|spelling| spelling.as_ref()).collect()
}

/// A field name that is known to be one.
fn known(text: &'static str) -> (result: HeaderName)
    requires
        is_name(vstd::utf8::encode_utf8(text@)),
    ensures
        name_text(result) == named(text),
{
    name(text.as_bytes()).unwrap()
}

/// Whether the characters of a text, from one on, are small letters and hyphens.
pub open spec fn plain_from(text: Seq<char>, from: nat) -> bool
    decreases text.len() - from,
{
    from >= text.len() || ((0x61 <= text[from as int] <= 0x7a || text[from as int] == '-')
        && plain_from(text, from + 1))
}

/// Each of the characters is a small letter or a hyphen.
pub(crate) proof fn plain_char(text: Seq<char>, from: nat, index: nat)
    requires
        plain_from(text, from),
        from <= index < text.len(),
    ensures
        0x61 <= text[index as int] <= 0x7a || text[index as int] == '-',
    decreases index - from,
{
    if from < index {
        plain_char(text, from + 1, index);
    }
}

/// A text of small letters and hyphens has one byte for each character. It is a
/// field name where it is not empty, and a field value.
pub proof fn plain_text(text: Seq<char>)
    requires
        plain_from(text, 0),
        text.len() <= MAX_NAME,
    ensures
        vstd::utf8::encode_utf8(text).len() == text.len(),
        text.len() > 0 ==> is_name(vstd::utf8::encode_utf8(text)),
        is_value(vstd::utf8::encode_utf8(text)),
{
    assert forall|i: int| 0 <= i < text.len() implies 0x61 <= #[trigger] text[i] <= 0x7a || text[i]
        == '-' by {
        plain_char(text, 0, i as nat);
    }
    assert(vstd::utf8::is_ascii_chars(text));
    vstd::utf8::is_ascii_chars_encode_utf8(text);
}

/// The text of the connection option that closes a connection.
pub open spec fn close_text() -> Seq<u8> {
    vstd::utf8::encode_utf8("close"@)
}

/// The connection option that closes a connection.
pub(crate) fn close_value() -> (result: HeaderValue)
    ensures
        value_text(result) == close_text(),
{
    proof {
        reveal_strlit("close");
        reveal_with_fuel(plain_from, 6);
        plain_text("close"@);
    }
    value("close".as_bytes()).unwrap()
}

pub(crate) fn connection() -> (result: HeaderName)
    ensures
        name_text(result) == named("connection"),
{
    proof {
        reveal_strlit("connection");
        reveal_with_fuel(plain_from, 11);
        plain_text("connection"@);
    }
    known("connection")
}

pub(crate) fn date() -> (result: HeaderName)
    ensures
        name_text(result) == named("date"),
{
    proof {
        reveal_strlit("date");
        reveal_with_fuel(plain_from, 5);
        plain_text("date"@);
    }
    known("date")
}

pub(crate) fn host() -> (result: HeaderName)
    ensures
        name_text(result) == named("host"),
{
    proof {
        reveal_strlit("host");
        reveal_with_fuel(plain_from, 5);
        plain_text("host"@);
    }
    known("host")
}

pub(crate) fn content_length() -> (result: HeaderName)
    ensures
        name_text(result) == named("content-length"),
{
    proof {
        reveal_strlit("content-length");
        reveal_with_fuel(plain_from, 15);
        plain_text("content-length"@);
    }
    known("content-length")
}

pub(crate) fn transfer_encoding() -> (result: HeaderName)
    ensures
        name_text(result) == named("transfer-encoding"),
{
    proof {
        reveal_strlit("transfer-encoding");
        reveal_with_fuel(plain_from, 18);
        plain_text("transfer-encoding"@);
    }
    known("transfer-encoding")
}

} // verus!
