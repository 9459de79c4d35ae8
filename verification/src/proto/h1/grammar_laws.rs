//! What holds of the quoted strings, parameters, numbers and names in field values and
//! chunk lines.

use crate::ascii::{self, BACKSLASH, CR, EQUALS, LF, QUOTE, SEMICOLON};
use crate::outside::fields;
use crate::proto::h1::decode::{self, DecodeError};
use crate::proto::h1::syntax;
use crate::proto::h1::text_laws::{
    all_blank, blank, blanks_around_are_trimmed, listed, list_gives_members_back,
    lowered_ignores_case, same_letters, unlisted,
};
use crate::proto::h1::values;
use http::HeaderMap;
use vstd::prelude::*;

verus! {

/// Whether a byte stands for itself in a quoted string: it is no quote, no backslash
/// and no control but the tab.
pub open spec fn stands_for_itself(byte: u8) -> bool {
    byte == '\t' as u8 || (byte >= ' ' as u8 && byte != 127 && byte != '"' as u8 && byte != '\\' as u8)
}

proof fn plain_run_is_passed(input: Seq<u8>, index: nat, end: nat)
    requires
        index <= end <= input.len(),
        forall|i: int| index <= i < end ==> stands_for_itself(#[trigger] input[i]),
    ensures
        syntax::quoted_end(input, index, false) == syntax::quoted_end(input, end, false),
    decreases end - index,
{
    if index < end {
        assert(stands_for_itself(input[index as int]));
        plain_run_is_passed(input, index + 1, end);
    }
}

/// A quoted string ends at its closing quote, whatever follows: text that stands for
/// itself, and any byte but a line end behind a backslash, belong to it.
pub proof fn quoted_strings_end_at_their_quote(
    text: Seq<u8>,
    escaped: Option<u8>,
    more: Seq<u8>,
    rest: Seq<u8>,
    input: &[u8],
    result: Option<usize>,
)
    requires
        call_ensures(syntax::quoted_string_len, (input,), result),
        forall|i: int| 0 <= i < text.len() ==> stands_for_itself(#[trigger] text[i]),
        forall|i: int| 0 <= i < more.len() ==> stands_for_itself(#[trigger] more[i]),
        escaped matches Some(byte) ==> byte != CR && byte != LF,
        escaped is None ==> more.len() == 0,
        input@ == seq![QUOTE] + text + (match escaped {
            Some(byte) => seq![BACKSLASH, byte],
            None => Seq::<u8>::empty(),
        }) + more + seq![QUOTE] + rest,
    ensures
        result == Some((input@.len() - rest.len()) as usize),
{
    let whole = input@;
    let first = 1 + text.len();
    assert forall|i: int| 1 <= i < first implies stands_for_itself(#[trigger] whole[i]) by {
        assert(whole[i] == text[i - 1]);
    }
    plain_run_is_passed(whole, 1, first);
    let second = match escaped {
        Some(_) => first + 2,
        None => first,
    };
    if let Some(byte) = escaped {
        assert(whole[first as int] == BACKSLASH);
        assert(whole[first as int + 1] == byte);
        reveal_with_fuel(syntax::quoted_end, 3);
    }
    assert(syntax::quoted_end(whole, first, false) == syntax::quoted_end(whole, second, false));
    let end = second + more.len();
    assert forall|i: int| second <= i < end implies stands_for_itself(#[trigger] whole[i]) by {
        assert(whole[i] == more[i - second]);
    }
    plain_run_is_passed(whole, second, end);
    assert(whole[end as int] == QUOTE);
}

/// A string that holds a control, or a line end behind a backslash, is refused, and so
/// is one whose closing quote does not come.
pub proof fn broken_quoted_strings_are_refused(
    text: Seq<u8>,
    broken: Seq<u8>,
    rest: Seq<u8>,
    input: &[u8],
    result: Option<usize>,
)
    requires
        call_ensures(syntax::quoted_string_len, (input,), result),
        forall|i: int| 0 <= i < text.len() ==> stands_for_itself(#[trigger] text[i]),
        input@ == seq![QUOTE] + text + broken + rest,
        ({
            ||| broken.len() == 0 && rest.len() == 0
            ||| broken == seq![BACKSLASH] && rest.len() == 0
            ||| broken == seq![BACKSLASH, CR]
            ||| broken == seq![BACKSLASH, LF]
            ||| broken.len() == 1 && broken[0] != QUOTE && broken[0] != BACKSLASH
                && !stands_for_itself(broken[0])
        }),
    ensures
        result is None,
{
    let whole = input@;
    let first = 1 + text.len();
    assert forall|i: int| 1 <= i < first implies stands_for_itself(#[trigger] whole[i]) by {
        assert(whole[i] == text[i - 1]);
    }
    plain_run_is_passed(whole, 1, first);
    if broken.len() > 0 {
        assert(whole[first as int] == broken[0]);
    }
    if broken.len() > 1 {
        assert(whole[first as int + 1] == broken[1]);
    }
    reveal_with_fuel(syntax::quoted_end, 3);
}

/// A value is a quoted string or the longest token at its start.
pub proof fn values_are_quoted_or_tokens(
    input: &[u8],
    value: Option<usize>,
    quoted: Option<usize>,
    token: usize,
)
    requires
        call_ensures(syntax::value_len, (input,), value),
        call_ensures(syntax::quoted_string_len, (input,), quoted),
        call_ensures(syntax::token_len, (input,), token),
    ensures
        input@.len() > 0 && input@[0] == '"' as u8 ==> value == quoted,
        !(input@.len() > 0 && input@[0] == '"' as u8) ==> (value is Some <==> token > 0),
        !(input@.len() > 0 && input@[0] == '"' as u8) ==> (value matches Some(length) ==> length
            == token),
{
}

/// The longest token at the start of a text is all its bytes up to the first that no
/// token has.
pub proof fn tokens_run_to_their_end(token: Seq<u8>, rest: Seq<u8>, input: &[u8], result: usize)
    requires
        call_ensures(syntax::token_len, (input,), result),
        input@ == token + rest,
        forall|i: int| 0 <= i < token.len() ==> syntax::token_byte(#[trigger] token[i]),
        rest.len() > 0 ==> !syntax::token_byte(rest[0]),
    ensures
        result == token.len(),
{
    token_run_is_whole(token, rest);
}

proof fn token_run_is_whole(token: Seq<u8>, rest: Seq<u8>)
    requires
        forall|i: int| 0 <= i < token.len() ==> syntax::token_byte(#[trigger] token[i]),
        rest.len() > 0 ==> !syntax::token_byte(rest[0]),
    ensures
        syntax::token_len_of(token + rest) == token.len(),
{
    let whole = token + rest;
    syntax::token_len_bounds(whole);
    let length = syntax::token_len_of(whole);
    if length < token.len() {
        assert(whole[length as int] == token[length as int]);
    } else if length > token.len() {
        assert(whole[token.len() as int] == rest[0]);
    }
}

/// Whether a text may follow a parameter: nothing, or the next one, up to its last byte
/// that is no whitespace.
pub open spec fn follows_parameter(rest: Seq<u8>) -> bool {
    rest.len() > 0 ==> rest[0] == SEMICOLON && !blank(rest.last())
}

/// Whether a text is a token, or a quoted string of bytes that stand for themselves.
pub open spec fn simple_value(value: Seq<u8>) -> bool {
    ||| syntax::is_token_text(value)
    ||| value.len() >= 2 && value[0] == QUOTE && value.last() == QUOTE && forall|i: int|
        1 <= i < value.len() - 1 ==> stands_for_itself(#[trigger] value[i])
}

proof fn simple_value_is_whole(value: Seq<u8>, rest: Seq<u8>)
    requires
        simple_value(value),
        rest.len() > 0 ==> blank(rest[0]) || rest[0] == SEMICOLON,
    ensures
        syntax::value_len_of(value + rest) == Some(value.len()),
{
    let whole = value + rest;
    if syntax::is_token_text(value) {
        assert(syntax::token_byte(value[0]));
        assert(whole[0] == value[0]);
        token_run_is_whole(value, rest);
    } else {
        let end = (value.len() - 1) as nat;
        assert(whole[0] == QUOTE);
        assert forall|i: int| 1 <= i < end implies stands_for_itself(#[trigger] whole[i]) by {
            assert(whole[i] == value[i]);
        }
        plain_run_is_passed(whole, 1, end);
        assert(whole[end as int] == value.last());
    }
}

proof fn behind_blanks(front: Seq<u8>, text: Seq<u8>)
    requires
        all_blank(front),
        text.len() > 0 ==> !blank(text[0]) && !blank(text.last()),
    ensures
        syntax::trimmed(front + text) == text,
{
    blanks_around_are_trimmed(front, text, Seq::empty());
    assert(front + text + Seq::<u8>::empty() =~= front + text);
}

/// The text of a name behind its semicolon, with whitespace around the name.
pub open spec fn named_part(before: Seq<u8>, name: Seq<u8>, after: Seq<u8>) -> Seq<u8> {
    seq![SEMICOLON] + before + name + after
}

/// The text of a name and its value, with whitespace around each.
pub open spec fn valued_part(
    before: Seq<u8>,
    name: Seq<u8>,
    after: Seq<u8>,
    ahead: Seq<u8>,
    value: Seq<u8>,
    behind: Seq<u8>,
) -> Seq<u8> {
    named_part(before, name, after) + seq![EQUALS] + ahead + value + behind
}

proof fn trimmed_whole(text: Seq<u8>, back: Seq<u8>)
    requires
        text.len() > 0,
        !blank(text[0]),
        !blank(text.last()),
        all_blank(back),
    ensures
        syntax::trimmed(text + back) == text,
{
    blanks_around_are_trimmed(Seq::empty(), text, back);
    assert(Seq::<u8>::empty() + text + back =~= text + back);
}

proof fn trimmed_name(before: Seq<u8>, name: Seq<u8>, after: Seq<u8>, rest: Seq<u8>)
    requires
        all_blank(before),
        all_blank(after),
        syntax::is_token_text(name),
        rest.len() > 0 ==> !syntax::token_byte(rest[0]) && !blank(rest[0]) && !blank(rest.last()),
    ensures
        ({
            let trimmed = syntax::trimmed(before + name + after + rest);
            &&& syntax::token_len_of(trimmed) == name.len()
            &&& syntax::trimmed(trimmed.skip(name.len() as int)) == rest
        }),
{
    assert(syntax::token_byte(name[0]));
    assert(syntax::token_byte(name[name.len() - 1]));
    if rest.len() == 0 {
        blanks_around_are_trimmed(before, name, after);
        assert(before + name + after + rest =~= before + name + after);
        token_run_is_whole(name, Seq::empty());
        assert(name + Seq::<u8>::empty() =~= name);
        assert(name.skip(name.len() as int) =~= rest);
        syntax::trimmed_keeps(rest);
    } else {
        let text = name + after + rest;
        assert(text[0] == name[0]);
        assert(text.last() == rest.last());
        behind_blanks(before, text);
        assert(before + name + after + rest =~= before + text);
        assert(text =~= name + (after + rest));
        if after.len() > 0 {
            assert(blank(after[0]));
            assert((after + rest)[0] == after[0]);
        }
        token_run_is_whole(name, after + rest);
        assert(text.skip(name.len() as int) =~= after + rest);
        behind_blanks(after, rest);
    }
}

proof fn trimmed_value(ahead: Seq<u8>, value: Seq<u8>, behind: Seq<u8>, rest: Seq<u8>)
    requires
        all_blank(ahead),
        all_blank(behind),
        simple_value(value),
        follows_parameter(rest),
    ensures
        ({
            let trimmed = syntax::trimmed(ahead + value + behind + rest);
            &&& syntax::value_len_of(trimmed) == Some(value.len())
            &&& syntax::trimmed(trimmed.skip(value.len() as int)) == rest
        }),
{
    if syntax::is_token_text(value) {
        assert(syntax::token_byte(value[0]));
        assert(syntax::token_byte(value[value.len() - 1]));
    }
    assert(!blank(value[0]) && !blank(value.last()));
    if rest.len() == 0 {
        blanks_around_are_trimmed(ahead, value, behind);
        assert(ahead + value + behind + rest =~= ahead + value + behind);
        simple_value_is_whole(value, Seq::empty());
        assert(value + Seq::<u8>::empty() =~= value);
        assert(value.skip(value.len() as int) =~= rest);
        syntax::trimmed_keeps(rest);
    } else {
        let text = value + behind + rest;
        assert(text[0] == value[0]);
        assert(text.last() == rest.last());
        behind_blanks(ahead, text);
        assert(ahead + value + behind + rest =~= ahead + text);
        assert(text =~= value + (behind + rest));
        if behind.len() > 0 {
            assert(blank(behind[0]));
            assert((behind + rest)[0] == behind[0]);
        }
        simple_value_is_whole(value, behind + rest);
        assert(text.skip(value.len() as int) =~= behind + rest);
        behind_blanks(behind, rest);
    }
}

/// A chunk extension is a name behind a semicolon, with or without a value: such a one
/// leaves the extensions behind it to decide.
pub proof fn extensions_are_read_one_by_one(
    before: Seq<u8>,
    name: Seq<u8>,
    after: Seq<u8>,
    ahead: Seq<u8>,
    value: Seq<u8>,
    behind: Seq<u8>,
    rest: &[u8],
    plain: &[u8],
    valued: &[u8],
    later: Result<(), DecodeError>,
    with_name: Result<(), DecodeError>,
    with_value: Result<(), DecodeError>,
)
    requires
        call_ensures(decode::validate_extensions, (rest,), later),
        call_ensures(decode::validate_extensions, (plain,), with_name),
        call_ensures(decode::validate_extensions, (valued,), with_value),
        all_blank(before) && all_blank(after) && all_blank(ahead) && all_blank(behind),
        syntax::is_token_text(name),
        simple_value(value),
        follows_parameter(rest@),
        plain@ == named_part(before, name, after) + rest@,
        valued@ == valued_part(before, name, after, ahead, value, behind) + rest@,
    ensures
        with_name is Ok <==> later is Ok,
        with_value is Ok <==> later is Ok,
        rest@.len() == 0 ==> later is Ok,
{
    extension_with_name(before, name, after, rest@);
    extension_with_value(before, name, after, ahead, value, behind, rest@);
}

proof fn extension_with_name(before: Seq<u8>, name: Seq<u8>, after: Seq<u8>, rest: Seq<u8>)
    requires
        all_blank(before),
        all_blank(after),
        syntax::is_token_text(name),
        follows_parameter(rest),
    ensures
        decode::extension_rest(named_part(before, name, after) + rest) == Some(rest),
{
    let whole = named_part(before, name, after) + rest;
    trimmed_name(before, name, after, rest);
    if rest.len() == 0 {
        let start = seq![SEMICOLON] + before + name;
        assert(start.last() == name.last());
        assert(syntax::token_byte(name[name.len() - 1]));
        trimmed_whole(start, after);
        assert(whole =~= start + after);
        assert(start.skip(1) =~= before + name);
        blanks_around_are_trimmed(before, name, Seq::empty());
        assert(before + name + Seq::<u8>::empty() =~= before + name);
        blanks_around_are_trimmed(before, name, after);
        assert(before + name + after + rest =~= before + name + after);
    } else {
        assert(whole[0] == SEMICOLON);
        assert(whole.last() == rest.last());
        syntax::trimmed_keeps(whole);
        assert(whole.skip(1) =~= before + name + after + rest);
    }
}

proof fn extension_with_value(
    before: Seq<u8>,
    name: Seq<u8>,
    after: Seq<u8>,
    ahead: Seq<u8>,
    value: Seq<u8>,
    behind: Seq<u8>,
    rest: Seq<u8>,
)
    requires
        all_blank(before) && all_blank(after) && all_blank(ahead) && all_blank(behind),
        syntax::is_token_text(name),
        simple_value(value),
        follows_parameter(rest),
    ensures
        decode::extension_rest(valued_part(before, name, after, ahead, value, behind) + rest)
            == Some(rest),
{
    let whole = valued_part(before, name, after, ahead, value, behind) + rest;
    let tail = if rest.len() == 0 {
        seq![EQUALS] + ahead + value
    } else {
        seq![EQUALS] + ahead + value + behind + rest
    };
    let back = if rest.len() == 0 {
        behind
    } else {
        Seq::empty()
    };
    if syntax::is_token_text(value) {
        assert(syntax::token_byte(value[value.len() - 1]));
    }
    assert(tail[0] == EQUALS);
    assert(tail.last() == if rest.len() == 0 {
        value.last()
    } else {
        rest.last()
    });
    let start = seq![SEMICOLON] + before + name + after + tail;
    assert(start[0] == SEMICOLON);
    assert(start.last() == tail.last());
    assert(whole =~= start + back);
    trimmed_whole(start, back);
    assert(start.skip(1) =~= before + name + after + tail);
    trimmed_name(before, name, after, tail);
    if rest.len() == 0 {
        assert(tail.skip(1) =~= ahead + value + Seq::<u8>::empty() + rest);
        trimmed_value(ahead, value, Seq::empty(), rest);
    } else {
        assert(tail.skip(1) =~= ahead + value + behind + rest);
        trimmed_value(ahead, value, behind, rest);
    }
}

/// Text that starts with no semicolon, a semicolon without a name behind it, and a name
/// that is followed by anything but a value or another extension are no extensions.
pub proof fn broken_extensions_are_refused(
    before: Seq<u8>,
    name: Seq<u8>,
    after: Seq<u8>,
    wrong: u8,
    rest: Seq<u8>,
    astray: &[u8],
    nameless: &[u8],
    followed: &[u8],
    first: Result<(), DecodeError>,
    second: Result<(), DecodeError>,
    third: Result<(), DecodeError>,
)
    requires
        call_ensures(decode::validate_extensions, (astray,), first),
        call_ensures(decode::validate_extensions, (nameless,), second),
        call_ensures(decode::validate_extensions, (followed,), third),
        all_blank(before),
        all_blank(after),
        syntax::is_token_text(name),
        !syntax::token_byte(wrong) && !blank(wrong) && wrong != SEMICOLON && wrong != EQUALS,
        rest.len() > 0 ==> !blank(rest.last()),
        astray@ == seq![wrong] + rest,
        nameless@ == seq![SEMICOLON] + before + seq![wrong] + rest,
        followed@ == named_part(before, name, after) + seq![wrong] + rest,
    ensures
        first == Err::<(), _>(DecodeError::InvalidChunkExtension),
        second == Err::<(), _>(DecodeError::InvalidChunkExtension),
        third == Err::<(), _>(DecodeError::InvalidChunkExtension),
{
    let tail = seq![wrong] + rest;
    assert(tail.last() == if rest.len() == 0 {
        wrong
    } else {
        rest.last()
    });
    syntax::trimmed_keeps(astray@);
    assert(astray@ =~= tail);
    assert(nameless@[0] == SEMICOLON);
    assert(nameless@.last() == tail.last());
    syntax::trimmed_keeps(nameless@);
    assert(nameless@.skip(1) =~= before + tail);
    behind_blanks(before, tail);
    assert(syntax::token_len_of(tail) == 0);
    assert(followed@[0] == SEMICOLON);
    assert(followed@.last() == tail.last());
    syntax::trimmed_keeps(followed@);
    assert(followed@.skip(1) =~= before + name + after + tail);
    trimmed_name(before, name, after, tail);
}

/// A transfer parameter is a name and its value behind a semicolon: such a one leaves
/// the parameters behind it to decide. A name alone is none.
pub proof fn parameters_are_read_one_by_one(
    before: Seq<u8>,
    name: Seq<u8>,
    after: Seq<u8>,
    ahead: Seq<u8>,
    value: Seq<u8>,
    behind: Seq<u8>,
    rest: &[u8],
    plain: &[u8],
    valued: &[u8],
    later: bool,
    with_name: bool,
    with_value: bool,
)
    requires
        call_ensures(values::validate_transfer_parameters, (rest,), later),
        call_ensures(values::validate_transfer_parameters, (plain,), with_name),
        call_ensures(values::validate_transfer_parameters, (valued,), with_value),
        all_blank(before) && all_blank(after) && all_blank(ahead) && all_blank(behind),
        syntax::is_token_text(name),
        simple_value(value),
        follows_parameter(rest@),
        plain@ == named_part(before, name, after) + rest@,
        valued@ == valued_part(before, name, after, ahead, value, behind) + rest@,
    ensures
        !with_name,
        with_value <==> later,
        rest@.len() == 0 ==> later,
{
    assert(plain@.skip(1) =~= before + name + after + rest@);
    trimmed_name(before, name, after, rest@);
    let whole = valued@;
    if syntax::is_token_text(value) {
        assert(syntax::token_byte(value[value.len() - 1]));
    }
    let tail = if rest@.len() == 0 {
        seq![EQUALS] + ahead + value
    } else {
        seq![EQUALS] + ahead + value + behind + rest@
    };
    assert(tail.last() == if rest@.len() == 0 {
        value.last()
    } else {
        rest@.last()
    });
    trimmed_name(before, name, after, tail);
    if rest@.len() == 0 {
        let text = name + after + tail;
        assert(syntax::token_byte(name[0]));
        assert(text.last() == tail.last());
        assert(whole.skip(1) =~= before + text + behind);
        blanks_around_are_trimmed(before, text, behind);
        behind_blanks(before, text);
        assert(before + name + after + tail =~= before + text);
        assert(tail.skip(1) =~= ahead + value + Seq::<u8>::empty() + rest@);
        trimmed_value(ahead, value, Seq::empty(), rest@);
    } else {
        assert(whole.skip(1) =~= before + name + after + tail);
        assert(tail.skip(1) =~= ahead + value + behind + rest@);
        trimmed_value(ahead, value, behind, rest@);
    }
}

/// A length is counted in tens: a further digit is worth its value, and those before it
/// ten times as much. Whitespace around the digits does not count, and any other byte,
/// no digit at all or too many of them make it none.
pub proof fn stated_lengths_count_in_tens(front: Seq<u8>, digits: Seq<u8>, next: u8, back: Seq<u8>)
    requires
        all_blank(front),
        all_blank(back),
        !blank(next),
        digits.len() > 0 ==> !blank(digits[0]),
    ensures
        ({
            let longer = values::stated_length(front + digits.push(next) + back);
            let shorter = if digits.len() == 0 {
                Some(0u64)
            } else {
                values::stated_length(digits)
            };
            &&& (!('0' as u8 <= next <= '9' as u8) ==> longer is None)
            &&& ('0' as u8 <= next <= '9' as u8 && (digits.len() == 0 || !blank(digits.last()))
                ==> (longer matches Some(length) ==> (shorter matches Some(before) && length == 10
                * before + (next - '0' as u8))))
            &&& ('0' as u8 <= next <= '9' as u8 && (digits.len() == 0 || !blank(digits.last()))
                ==> (shorter matches Some(before) ==> (10 * before + (next - '0' as u8)
                <= u64::MAX ==> longer is Some)))
        }),
        values::stated_length(front) is None,
{
    let text = digits.push(next);
    assert(text.last() == next);
    assert(text[0] == if digits.len() == 0 {
        next
    } else {
        digits[0]
    });
    blanks_around_are_trimmed(front, text, back);
    blanks_around_are_trimmed(front, Seq::empty(), Seq::empty());
    assert(front + Seq::<u8>::empty() + Seq::<u8>::empty() =~= front);
    assert(text.drop_last() =~= digits);
    assert(text[text.len() - 1] == next);
    if digits.len() > 0 && !blank(digits.last()) {
        syntax::trimmed_keeps(digits);
    }
    if values::all_digits(text) {
        assert forall|i: int| 0 <= i < digits.len() implies ascii::is_digit(#[trigger] digits[i]) by {
            assert(digits[i] == text[i]);
        }
    }
    if values::all_digits(digits) && ascii::is_digit(next) {
        assert forall|i: int| 0 <= i < text.len() implies ascii::is_digit(#[trigger] text[i]) by {
            if i < digits.len() {
                assert(text[i] == digits[i]);
            }
        }
    }
    assert(values::decimal_value(text) == 10 * values::decimal_value(digits) + (next - 0x30) as nat);
}

/// A further value continues the list of those before it.
pub proof fn values_make_one_list(first: Seq<Seq<u8>>, rest: Seq<Seq<u8>>)
    requires
        first.len() > 0,
        forall|i: int|
            0 <= i < first.len() ==> (#[trigger] first[i]).len() > 0 && unlisted(first[i]),
    ensures
        values::all_members(seq![listed(first)] + rest).0 == first + values::all_members(rest).0,
        values::all_members(seq![listed(first)] + rest).1 == values::all_members(rest).1,
{
    list_gives_members_back(first);
    let whole = seq![listed(first)] + rest;
    assert(whole[0] == listed(first));
    assert(whole.skip(1) =~= rest);
}

/// A protocol is a token, or a token and a version behind one slash, with whitespace
/// around it or without.
pub proof fn protocols_have_a_form(front: Seq<u8>, text: Seq<u8>, back: Seq<u8>)
    requires
        all_blank(front),
        all_blank(back),
        text.len() > 0 ==> !blank(text[0]) && !blank(text.last()),
    ensures
        values::is_protocol(front + text + back) <==> syntax::is_token_text(text) || exists|i: int|
            0 < i < text.len() && #[trigger] text[i] == '/' as u8 && syntax::is_token_text(
                text.take(i),
            ) && syntax::is_token_text(text.skip(i + 1)),
{
    blanks_around_are_trimmed(front, text, back);
    let slash = '/' as u8;
    let split = ascii::position(text, slash);
    ascii::position_is_first(text, slash);
    assert(!syntax::token_byte(slash));
    if syntax::is_token_text(text) {
        if split < text.len() {
            assert(syntax::token_byte(text[split as int]));
        }
        assert(text.take(split as int) =~= text);
    }
    if exists|i: int|
        0 < i < text.len() && #[trigger] text[i] == slash && syntax::is_token_text(text.take(i))
            && syntax::is_token_text(text.skip(i + 1)) {
        let i = choose|i: int|
            0 < i < text.len() && #[trigger] text[i] == slash && syntax::is_token_text(text.take(i))
                && syntax::is_token_text(text.skip(i + 1));
        if split < i {
            assert(text.take(i)[split as int] == slash);
            assert(syntax::token_byte(text.take(i)[split as int]));
        }
        assert(split == i);
    }
    if values::is_protocol(front + text + back) {
        if split == text.len() {
            assert(text.take(split as int) =~= text);
        } else {
            assert(text[split as int] == slash);
            assert(text.take(split as int).len() > 0);
        }
    }
}

/// Whether a name is this one, whatever the case of its letters.
pub open spec fn is_named(name: Seq<u8>, text: &str) -> bool {
    same_letters(name, fields::named(text))
}

/// Whether a field says how a message is framed, routed or carried on.
pub open spec fn frames_or_routes(name: Seq<u8>) -> bool {
    is_named(name, "content-length") || is_named(name, "transfer-encoding") || is_named(
        name,
        "trailer",
    ) || is_named(name, "te") || is_named(name, "host") || is_named(name, "connection") || is_named(
        name,
        "upgrade",
    ) || is_named(name, "expect")
}

/// Whether a field authenticates a message or one of its ends.
pub open spec fn authenticates(name: Seq<u8>) -> bool {
    is_named(name, "authorization") || is_named(name, "www-authenticate") || is_named(
        name,
        "proxy-authorization",
    ) || is_named(name, "proxy-authenticate")
}

/// Whether a field says how content is to be read.
pub open spec fn describes_content(name: Seq<u8>) -> bool {
    is_named(name, "content-type") || is_named(name, "content-encoding") || is_named(
        name,
        "content-range",
    )
}

/// Trailers are refused exactly where one of them would frame, route or authenticate
/// the message, or say how its content is to be read.
pub proof fn trailers_come_too_late(trailers: &HeaderMap, result: Result<(), DecodeError>)
    requires
        call_ensures(decode::validate_trailers, (trailers,), result),
    ensures
        result is Err <==> exists|i: int|
            0 <= i < fields::entries(*trailers).len() && {
                let name = (#[trigger] fields::entries(*trailers)[i]).0;
                frames_or_routes(name) || authenticates(name) || describes_content(name)
            },
        result matches Err(error) ==> error == DecodeError::ForbiddenTrailer,
{
    let held = fields::entries(*trailers);
    assert forall|i: int| 0 <= i < held.len() implies decode::forbidden_name((#[trigger] held[i]).0)
        == (frames_or_routes(held[i].0) || authenticates(held[i].0) || describes_content(
        held[i].0,
    )) by {
        forbidden_names_are_these(held[i].0);
    }
}

proof fn named_is_lowered(text: Seq<u8>, name: &str)
    requires
        fields::plain_from(name@, 0),
    ensures
        ascii::lowered(text) == fields::named(name) <==> is_named(text, name),
{
    assert forall|i: int| 0 <= i < name@.len() implies 0x61 <= #[trigger] name@[i] <= 0x7a
        || name@[i] == '-' by {
        fields::plain_char(name@, 0, i as nat);
    }
    assert(vstd::utf8::is_ascii_chars(name@));
    vstd::utf8::is_ascii_chars_encode_utf8(name@);
    assert(ascii::lowered(fields::named(name)) =~= fields::named(name));
    lowered_ignores_case(text, fields::named(name));
}

proof fn forbidden_names_are_these(name: Seq<u8>)
    ensures
        decode::forbidden_name(name) == (frames_or_routes(name) || authenticates(name)
            || describes_content(name)),
{
    reveal_with_fuel(fields::plain_from, 21);
    reveal_strlit("transfer-encoding");
    named_is_lowered(name, "transfer-encoding");
    reveal_strlit("content-length");
    named_is_lowered(name, "content-length");
    reveal_strlit("host");
    named_is_lowered(name, "host");
    reveal_strlit("connection");
    named_is_lowered(name, "connection");
    reveal_strlit("trailer");
    named_is_lowered(name, "trailer");
    reveal_strlit("te");
    named_is_lowered(name, "te");
    reveal_strlit("upgrade");
    named_is_lowered(name, "upgrade");
    reveal_strlit("expect");
    named_is_lowered(name, "expect");
    reveal_strlit("authorization");
    named_is_lowered(name, "authorization");
    reveal_strlit("proxy-authorization");
    named_is_lowered(name, "proxy-authorization");
    reveal_strlit("proxy-authenticate");
    named_is_lowered(name, "proxy-authenticate");
    reveal_strlit("www-authenticate");
    named_is_lowered(name, "www-authenticate");
    reveal_strlit("content-encoding");
    named_is_lowered(name, "content-encoding");
    reveal_strlit("content-type");
    named_is_lowered(name, "content-type");
    reveal_strlit("content-range");
    named_is_lowered(name, "content-range");
}

} // verus!
