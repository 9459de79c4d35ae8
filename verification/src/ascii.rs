//! Byte constants and comparisons of ASCII text.

use vstd::prelude::*;
use vstd::string::StringExecFns;

verus! {

pub const TAB: u8 = 0x09;

pub const LF: u8 = 0x0a;

pub const CR: u8 = 0x0d;

pub const SP: u8 = 0x20;

pub const QUOTE: u8 = 0x22;

pub const COMMA: u8 = 0x2c;

pub const SLASH: u8 = 0x2f;

pub const ZERO: u8 = 0x30;

pub const COLON: u8 = 0x3a;

pub const SEMICOLON: u8 = 0x3b;

pub const EQUALS: u8 = 0x3d;

pub const AT: u8 = 0x40;

pub const BACKSLASH: u8 = 0x5c;

pub const DEL: u8 = 0x7f;

pub open spec fn is_digit(byte: u8) -> bool {
    0x30 <= byte <= 0x39
}

pub open spec fn is_upper(byte: u8) -> bool {
    0x41 <= byte <= 0x5a
}

pub open spec fn is_lower(byte: u8) -> bool {
    0x61 <= byte <= 0x7a
}

pub open spec fn is_hex(byte: u8) -> bool {
    is_digit(byte) || 0x41 <= byte <= 0x46 || 0x61 <= byte <= 0x66
}

/// The byte with an ASCII capital replaced by its small letter.
pub open spec fn lower(byte: u8) -> u8 {
    if is_upper(byte) {
        (byte + 0x20) as u8
    } else {
        byte
    }
}

/// Text with every ASCII capital replaced by its small letter.
pub open spec fn lowered(text: Seq<u8>) -> Seq<u8> {
    Seq::new(text.len(), |i: int| lower(text[i]))
}

/// The bytes of ASCII text.
pub open spec fn ascii(text: Seq<char>) -> Seq<u8> {
    Seq::new(text.len(), |i: int| text[i] as u8)
}

pub fn to_lower(byte: u8) -> (result: u8)
    ensures
        result == lower(byte),
{
    if 0x41 <= byte && byte <= 0x5a {
        byte + 0x20
    } else {
        byte
    }
}

/// The bytes of a text that is known to be ASCII.
pub fn text(value: &'static str) -> (result: &'static [u8])
    requires
        vstd::utf8::is_ascii_chars(value@),
    ensures
        result@ == ascii(value@),
{
    proof {
        vstd::string::is_ascii_spec_bytes(value);
    }
    let result = value.as_bytes();
    assert(result@ =~= ascii(value@));
    result
}

/// Whether two byte strings hold the same bytes.
pub fn same(left: &[u8], right: &[u8]) -> (result: bool)
    ensures
        result == (left@ == right@),
{
    if left.len() != right.len() {
        return false;
    }
    for index in 0..left.len()
        invariant
            left.len() == right.len(),
            forall|i: int| 0 <= i < index ==> left@[i] == right@[i],
    {
        if left[index] != right[index] {
            return false;
        }
    }
    assert(left@ =~= right@);
    true
}

/// Whether two byte strings agree when the case of ASCII letters is ignored.
pub fn same_ignoring_case(left: &[u8], right: &[u8]) -> (result: bool)
    ensures
        result == (lowered(left@) == lowered(right@)),
{
    if left.len() != right.len() {
        assert(lowered(left@).len() != lowered(right@).len());
        return false;
    }
    for index in 0..left.len()
        invariant
            left.len() == right.len(),
            forall|i: int| 0 <= i < index ==> lower(#[trigger] left@[i]) == lower(right@[i]),
    {
        if to_lower(left[index]) != to_lower(right[index]) {
            proof {
                assert(lowered(left@)[index as int] != lowered(right@)[index as int]);
            }
            return false;
        }
    }
    assert(lowered(left@) =~= lowered(right@));
    true
}

/// Whether a byte string holds a byte.
pub fn contains(bytes: &[u8], wanted: u8) -> (result: bool)
    ensures
        result == bytes@.contains(wanted),
{
    for index in 0..bytes.len()
        invariant
            forall|i: int| 0 <= i < index ==> bytes@[i] != wanted,
    {
        if bytes[index] == wanted {
            return true;
        }
    }
    false
}

/// The first position of a byte, or the length when it is absent.
pub open spec fn position(bytes: Seq<u8>, wanted: u8) -> nat
    decreases bytes.len(),
{
    if bytes.len() == 0 || bytes[0] == wanted {
        0
    } else {
        1 + position(bytes.skip(1), wanted)
    }
}

/// Where `position` points: at the byte or at the end, past other bytes only.
pub proof fn position_is_first(bytes: Seq<u8>, wanted: u8)
    ensures
        position(bytes, wanted) <= bytes.len(),
        position(bytes, wanted) < bytes.len() ==> bytes[position(bytes, wanted) as int] == wanted,
        forall|i: int| 0 <= i < position(bytes, wanted) ==> bytes[i] != wanted,
    decreases bytes.len(),
{
    if bytes.len() != 0 && bytes[0] != wanted {
        let rest = bytes.skip(1);
        position_is_first(rest, wanted);
        assert forall|i: int| 0 <= i < position(bytes, wanted) implies bytes[i] != wanted by {
            if i > 0 {
                assert(rest[i - 1] != wanted);
            }
        }
    }
}

/// A position that points at the first occurrence, or at the end, is `position`.
pub proof fn position_is_unique(bytes: Seq<u8>, wanted: u8, index: nat)
    requires
        index <= bytes.len(),
        index < bytes.len() ==> bytes[index as int] == wanted,
        forall|i: int| 0 <= i < index ==> bytes[i] != wanted,
    ensures
        position(bytes, wanted) == index,
{
    position_is_first(bytes, wanted);
}

pub fn find(bytes: &[u8], wanted: u8) -> (index: usize)
    ensures
        index == position(bytes@, wanted),
        index <= bytes.len(),
{
    for index in 0..bytes.len()
        invariant
            forall|i: int| 0 <= i < index ==> bytes@[i] != wanted,
    {
        if bytes[index] == wanted {
            proof {
                position_is_unique(bytes@, wanted, index as nat);
            }
            return index;
        }
    }
    proof {
        position_is_unique(bytes@, wanted, bytes.len() as nat);
    }
    bytes.len()
}

/// The decimal digit of a number below ten.
pub open spec fn digit_chars(value: nat) -> Seq<char> {
    if value == 0 {
        "0"@
    } else if value == 1 {
        "1"@
    } else if value == 2 {
        "2"@
    } else if value == 3 {
        "3"@
    } else if value == 4 {
        "4"@
    } else if value == 5 {
        "5"@
    } else if value == 6 {
        "6"@
    } else if value == 7 {
        "7"@
    } else if value == 8 {
        "8"@
    } else {
        "9"@
    }
}

/// A number in decimal digits.
pub open spec fn decimal_chars(value: nat) -> Seq<char>
    decreases value,
{
    if value < 10 {
        digit_chars(value)
    } else {
        decimal_chars(value / 10) + digit_chars(value % 10)
    }
}

fn digit_text(value: u64) -> (result: &'static str)
    requires
        value < 10,
    ensures
        result@ == digit_chars(value as nat),
{
    match value {
        0 => "0",
        1 => "1",
        2 => "2",
        3 => "3",
        4 => "4",
        5 => "5",
        6 => "6",
        7 => "7",
        8 => "8",
        _ => "9",
    }
}

/// A number in decimal digits.
pub fn decimal_text(value: u64) -> (result: String)
    ensures
        result@ == decimal_chars(value as nat),
    decreases value,
{
    if value < 10 {
        digit_text(value).to_owned()
    } else {
        let mut text = decimal_text(value / 10);
        text.append(digit_text(value % 10));
        text
    }
}

} // verus!
