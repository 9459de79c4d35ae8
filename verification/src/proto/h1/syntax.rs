//! Lexical rules that message heads and chunk lines share.

use crate::ascii::{BACKSLASH, CR, DEL, LF, QUOTE, SP, TAB};
use vstd::prelude::*;

verus! {

/// Optional whitespace.
pub open spec fn is_ows(byte: u8) -> bool {
    byte == SP || byte == TAB
}

/// A value without the optional whitespace in front of it.
pub open spec fn without_leading(value: Seq<u8>) -> Seq<u8>
    decreases value.len(),
{
    if value.len() > 0 && is_ows(value[0]) {
        without_leading(value.skip(1))
    } else {
        value
    }
}

/// A value without the optional whitespace behind it.
pub open spec fn without_trailing(value: Seq<u8>) -> Seq<u8>
    decreases value.len(),
{
    if value.len() > 0 && is_ows(value.last()) {
        without_trailing(value.drop_last())
    } else {
        value
    }
}

/// A value without the optional whitespace around it.
pub open spec fn trimmed(value: Seq<u8>) -> Seq<u8> {
    without_trailing(without_leading(value))
}

/// The bytes that a token is made of.
pub open spec fn token_byte(byte: u8) -> bool {
    crate::ascii::is_digit(byte) || crate::ascii::is_upper(byte) || crate::ascii::is_lower(byte)
        || byte == 0x21 || 0x23 <= byte <= 0x27 || byte == 0x2a || byte == 0x2b || byte == 0x2d
        || byte == 0x2e || byte == 0x5e || byte == 0x5f || byte == 0x60 || byte == 0x7c
        || byte == 0x7e
}

/// The length of the longest run of token bytes at the start of the input.
pub open spec fn token_len_of(input: Seq<u8>) -> nat
    decreases input.len(),
{
    if input.len() > 0 && token_byte(input[0]) {
        1 + token_len_of(input.skip(1))
    } else {
        0
    }
}

/// A nonempty run of token bytes.
pub open spec fn is_token_text(value: Seq<u8>) -> bool {
    value.len() > 0 && forall|i: int| 0 <= i < value.len() ==> token_byte(#[trigger] value[i])
}

/// Control bytes that a quoted string may not hold unescaped.
pub open spec fn quoted_control(byte: u8) -> bool {
    byte == DEL || (byte < SP && byte != TAB)
}

/// Where a quoted string ends that has been read up to `index`, inside an
/// escape when `escaped`: one past its closing quote.
pub open spec fn quoted_end(input: Seq<u8>, index: nat, escaped: bool) -> Option<nat>
    decreases input.len() - index,
{
    if index >= input.len() {
        None
    } else {
        let byte = input[index as int];
        if escaped {
            if byte == CR || byte == LF {
                None
            } else {
                quoted_end(input, index + 1, false)
            }
        } else if byte == BACKSLASH {
            quoted_end(input, index + 1, true)
        } else if byte == QUOTE {
            Some(index + 1)
        } else if quoted_control(byte) {
            None
        } else {
            quoted_end(input, index + 1, false)
        }
    }
}

/// The length of the quoted string whose opening quote is the first byte.
pub open spec fn quoted_len(input: Seq<u8>) -> Option<nat> {
    quoted_end(input, 1, false)
}

/// The length of the token or quoted string at the start of the input.
pub open spec fn value_len_of(input: Seq<u8>) -> Option<nat> {
    if input.len() > 0 && input[0] == QUOTE {
        quoted_len(input)
    } else if token_len_of(input) > 0 {
        Some(token_len_of(input))
    } else {
        None
    }
}

pub proof fn trimmed_shortens(value: Seq<u8>)
    ensures
        without_leading(value).len() <= value.len(),
        without_trailing(value).len() <= value.len(),
        trimmed(value).len() <= value.len(),
{
    leading_shortens(value);
    trailing_shortens(value);
    trailing_shortens(without_leading(value));
}

proof fn leading_shortens(value: Seq<u8>)
    ensures
        without_leading(value).len() <= value.len(),
    decreases value.len(),
{
    if value.len() > 0 && is_ows(value[0]) {
        leading_shortens(value.skip(1));
    }
}

proof fn trailing_shortens(value: Seq<u8>)
    ensures
        without_trailing(value).len() <= value.len(),
    decreases value.len(),
{
    if value.len() > 0 && is_ows(value.last()) {
        trailing_shortens(value.drop_last());
    }
}

/// Trimming keeps a value that has no optional whitespace at either end.
pub proof fn trimmed_keeps(value: Seq<u8>)
    requires
        value.len() == 0 || (!is_ows(value[0]) && !is_ows(value.last())),
    ensures
        trimmed(value) == value,
        without_leading(value) == value,
        without_trailing(value) == value,
{
}

/// A trimmed value has no optional whitespace at either end.
pub proof fn trimmed_ends(value: Seq<u8>)
    ensures
        trimmed(value).len() > 0 ==> !is_ows(trimmed(value)[0]) && !is_ows(trimmed(value).last()),
    decreases value.len(),
{
    let start = without_leading(value);
    leading_end(value);
    trailing_end(start);
}

proof fn leading_end(value: Seq<u8>)
    ensures
        without_leading(value).len() > 0 ==> !is_ows(without_leading(value)[0]),
    decreases value.len(),
{
    if value.len() > 0 && is_ows(value[0]) {
        leading_end(value.skip(1));
    }
}

proof fn trailing_end(value: Seq<u8>)
    ensures
        without_trailing(value).len() > 0 ==> !is_ows(without_trailing(value).last())
            && without_trailing(value)[0] == value[0],
    decreases value.len(),
{
    if value.len() > 0 && is_ows(value.last()) {
        trailing_end(value.drop_last());
    }
}

/// Where the token run ends.
pub proof fn token_len_bounds(input: Seq<u8>)
    ensures
        token_len_of(input) <= input.len(),
        token_len_of(input) < input.len() ==> !token_byte(input[token_len_of(input) as int]),
        forall|i: int| 0 <= i < token_len_of(input) ==> token_byte(input[i]),
    decreases input.len(),
{
    if input.len() > 0 && token_byte(input[0]) {
        let rest = input.skip(1);
        token_len_bounds(rest);
        assert forall|i: int| 0 <= i < token_len_of(input) implies token_byte(input[i]) by {
            if i > 0 {
                assert(token_byte(rest[i - 1]));
            }
        }
    }
}

proof fn quoted_end_bounds(input: Seq<u8>, index: nat, escaped: bool)
    ensures
        quoted_end(input, index, escaped) is Some ==> index < quoted_end(
            input,
            index,
            escaped,
        )->0 <= input.len(),
    decreases input.len() - index,
{
    if index < input.len() {
        quoted_end_bounds(input, index + 1, false);
        quoted_end_bounds(input, index + 1, true);
    }
}

/// A value is nonempty and lies within the input.
pub proof fn value_len_bounds(input: Seq<u8>)
    ensures
        value_len_of(input) is Some ==> 0 < value_len_of(input)->0 <= input.len(),
{
    quoted_end_bounds(input, 1, false);
    token_len_bounds(input);
}

pub fn trim_start(value: &[u8]) -> (result: &[u8])
    ensures
        result@ == without_leading(value@),
{
    let mut start: usize = 0;
    assert(value@.subrange(0, value.len() as int) =~= value@);
    while start < value.len() && (value[start] == SP || value[start] == TAB)
        invariant
            start <= value.len(),
            without_leading(value@.subrange(start as int, value.len() as int)) == without_leading(
                value@,
            ),
        decreases value.len() - start,
    {
        let ghost rest = value@.subrange(start as int, value.len() as int);
        assert(rest.skip(1) =~= value@.subrange(start + 1, value.len() as int));
        start = start + 1;
    }
    &value[start..value.len()]
}

pub fn trim_end(value: &[u8]) -> (result: &[u8])
    ensures
        result@ == without_trailing(value@),
{
    let mut end: usize = value.len();
    assert(value@.subrange(0, value.len() as int) =~= value@);
    while end > 0 && (value[end - 1] == SP || value[end - 1] == TAB)
        invariant
            end <= value.len(),
            without_trailing(value@.subrange(0, end as int)) == without_trailing(value@),
        decreases end,
    {
        let ghost rest = value@.subrange(0, end as int);
        assert(rest.drop_last() =~= value@.subrange(0, end - 1));
        end = end - 1;
    }
    &value[0..end]
}

/// The value without the optional whitespace around it.
pub fn trim_ows(value: &[u8]) -> (result: &[u8])
    ensures
        result@ == trimmed(value@),
        result.len() <= value.len(),
{
    proof {
        trimmed_shortens(value@);
    }
    trim_end(trim_start(value))
}

pub fn is_tchar(byte: u8) -> (result: bool)
    ensures
        result == token_byte(byte),
{
    matches!(
        byte,
        0x30..=0x39 | 0x41..=0x5a | 0x61..=0x7a | 0x21 | 0x23..=0x27 | 0x2a | 0x2b | 0x2d | 0x2e
            | 0x5e | 0x5f | 0x60 | 0x7c | 0x7e
    )
}

/// Whether the whole value is one token.
pub fn is_token(value: &[u8]) -> (result: bool)
    ensures
        result == is_token_text(value@),
{
    if value.len() == 0 {
        return false;
    }
    for index in 0..value.len()
        invariant
            forall|i: int| 0 <= i < index ==> token_byte(#[trigger] value@[i]),
    {
        if !is_tchar(value[index]) {
            return false;
        }
    }
    true
}

/// The number of token bytes at the start of the input.
pub fn token_len(input: &[u8]) -> (result: usize)
    ensures
        result == token_len_of(input@),
        result <= input.len(),
{
    proof {
        token_len_bounds(input@);
    }
    let mut length: usize = 0;
    while length < input.len() && is_tchar(input[length])
        invariant
            length <= input.len(),
            forall|i: int| 0 <= i < length ==> token_byte(input@[i]),
            token_len_of(input@) <= input.len(),
            token_len_of(input@) < input.len() ==> !token_byte(
                input@[token_len_of(input@) as int],
            ),
        decreases input.len() - length,
    {
        length = length + 1;
    }
    length
}

/// The length of the quoted string that starts with the first byte, its quotes
/// counted.
pub fn quoted_string_len(input: &[u8]) -> (result: Option<usize>)
    ensures
        match result {
            Some(length) => quoted_len(input@) == Some(length as nat) && length <= input.len(),
            None => quoted_len(input@) is None,
        },
{
    if input.len() == 0 {
        return None;
    }
    let mut escaped = false;
    let mut index: usize = 1;
    while index < input.len()
        invariant
            1 <= index <= input.len(),
            quoted_len(input@) == quoted_end(input@, index as nat, escaped),
        decreases input.len() - index,
    {
        let byte = input[index];
        if escaped {
            if byte == CR || byte == LF {
                return None;
            }
            escaped = false;
        } else if byte == BACKSLASH {
            escaped = true;
        } else if byte == QUOTE {
            return Some(index + 1);
        } else if byte == DEL || (byte < SP && byte != TAB) {
            return None;
        }
        index = index + 1;
    }
    None
}

/// The length of the token or quoted string that starts with the first byte.
pub fn value_len(input: &[u8]) -> (result: Option<usize>)
    ensures
        match result {
            Some(length) => value_len_of(input@) == Some(length as nat) && 0 < length
                <= input.len(),
            None => value_len_of(input@) is None,
        },
{
    proof {
        value_len_bounds(input@);
    }
    if input.len() > 0 && input[0] == QUOTE {
        quoted_string_len(input)
    } else {
        let length = token_len(input);
        if length > 0 {
            Some(length)
        } else {
            None
        }
    }
}

} // verus!
