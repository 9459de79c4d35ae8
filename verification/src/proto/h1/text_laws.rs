//! What holds of the texts that heads and chunk lines are made of.

use crate::ascii::{self, BACKSLASH, COMMA, QUOTE};
use crate::proto::h1::syntax;
use crate::proto::h1::values;
use vstd::prelude::*;

verus! {

/// Whether two bytes are the same letter, or the same byte.
pub open spec fn same_letter(left: u8, right: u8) -> bool {
    ||| left == right
    ||| 'A' as u8 <= left <= 'Z' as u8 && right == left + 32
    ||| 'A' as u8 <= right <= 'Z' as u8 && left == right + 32
}

/// Whether two texts are the same but for the case of their letters.
pub open spec fn same_letters(left: Seq<u8>, right: Seq<u8>) -> bool {
    &&& left.len() == right.len()
    &&& forall|i: int| 0 <= i < left.len() ==> same_letter(#[trigger] left[i], right[i])
}

/// Texts agree where they are the same but for the case of their letters, and
/// nowhere else.
pub proof fn case_alone_is_ignored(left: &[u8], right: &[u8], result: bool)
    requires
        call_ensures(ascii::same_ignoring_case, (left, right), result),
    ensures
        result <==> same_letters(left@, right@),
{
    lowered_ignores_case(left@, right@);
}

pub(crate) proof fn lowered_ignores_case(left: Seq<u8>, right: Seq<u8>)
    ensures
        ascii::lowered(left) == ascii::lowered(right) <==> same_letters(left, right),
{
    if ascii::lowered(left) == ascii::lowered(right) {
        assert(ascii::lowered(left).len() == left.len());
        assert(ascii::lowered(right).len() == right.len());
        assert forall|i: int| 0 <= i < left.len() implies same_letter(
            #[trigger] left[i],
            right[i],
        ) by {
            assert(ascii::lowered(left)[i] == ascii::lowered(right)[i]);
        }
    }
    if same_letters(left, right) {
        assert(ascii::lowered(left) =~= ascii::lowered(right));
    }
}

/// A field name in small letters is the name itself, and names that differ in case
/// alone are one name.
pub proof fn lowered_names(text: Seq<u8>)
    ensures
        same_letters(ascii::lowered(text), text),
        forall|i: int|
            0 <= i < text.len() ==> !('A' as u8 <= #[trigger] ascii::lowered(text)[i] <= 'Z' as u8),
{
}

/// Whether a byte is optional whitespace.
pub open spec fn blank(byte: u8) -> bool {
    byte == ' ' as u8 || byte == '\t' as u8
}

pub open spec fn all_blank(text: Seq<u8>) -> bool {
    forall|i: int| 0 <= i < text.len() ==> blank(#[trigger] text[i])
}

/// Whether a text is empty or has no whitespace at either end.
pub open spec fn tight(text: Seq<u8>) -> bool {
    text.len() > 0 ==> !blank(text[0]) && !blank(text.last())
}

proof fn leading_blanks_go(blanks: Seq<u8>, rest: Seq<u8>)
    requires
        all_blank(blanks),
    ensures
        syntax::without_leading(blanks + rest) == syntax::without_leading(rest),
    decreases blanks.len(),
{
    let whole = blanks + rest;
    if blanks.len() == 0 {
        assert(whole =~= rest);
    } else {
        let fewer = blanks.skip(1);
        assert(blank(blanks[0]));
        assert forall|i: int| 0 <= i < fewer.len() implies blank(#[trigger] fewer[i]) by {
            assert(fewer[i] == blanks[i + 1]);
        }
        assert(whole.skip(1) =~= fewer + rest);
        leading_blanks_go(fewer, rest);
    }
}

proof fn trailing_blanks_go(rest: Seq<u8>, blanks: Seq<u8>)
    requires
        all_blank(blanks),
    ensures
        syntax::without_trailing(rest + blanks) == syntax::without_trailing(rest),
    decreases blanks.len(),
{
    let whole = rest + blanks;
    if blanks.len() == 0 {
        assert(whole =~= rest);
    } else {
        let fewer = blanks.drop_last();
        assert(blank(blanks.last()));
        assert(whole.drop_last() =~= rest + fewer);
        trailing_blanks_go(rest, fewer);
    }
}

/// Trimming takes the whitespace from both ends of a text, all of it, and nothing
/// else.
pub proof fn blanks_around_are_trimmed(front: Seq<u8>, text: Seq<u8>, back: Seq<u8>)
    requires
        all_blank(front),
        all_blank(back),
        tight(text),
    ensures
        syntax::trimmed(front + text + back) == text,
{
    assert(front + text + back =~= front + (text + back));
    leading_blanks_go(front, text + back);
    if text.len() == 0 {
        assert(text + back =~= back + Seq::<u8>::empty());
        leading_blanks_go(back, Seq::empty());
        assert(syntax::without_leading(text + back) =~= Seq::<u8>::empty());
        assert(syntax::trimmed(front + text + back) =~= text);
    } else {
        assert((text + back)[0] == text[0]);
        trailing_blanks_go(text, back);
        assert(text[text.len() - 1] == text.last());
    }
}

/// The same of trimming the end alone.
pub proof fn blanks_behind_are_trimmed(text: Seq<u8>, back: Seq<u8>)
    requires
        all_blank(back),
        text.len() > 0 ==> !blank(text.last()),
    ensures
        syntax::without_trailing(text + back) == text,
{
    trailing_blanks_go(text, back);
}

/// A trimmed value is what stands between the whitespace at its ends.
pub proof fn trimming_keeps_the_text(front: Seq<u8>, text: Seq<u8>, back: Seq<u8>, value: &[u8], result: &[u8])
    requires
        call_ensures(syntax::trim_ows, (value,), result),
        value@ == front + text + back,
        all_blank(front),
        all_blank(back),
        tight(text),
    ensures
        result@ == text,
{
    blanks_around_are_trimmed(front, text, back);
}

/// A token is made of letters, digits and these marks.
pub proof fn tokens_are_made_of(byte: u8, result: bool)
    requires
        call_ensures(syntax::is_tchar, (byte,), result),
    ensures
        result <==> {
            ||| '0' as u8 <= byte <= '9' as u8
            ||| 'A' as u8 <= byte <= 'Z' as u8
            ||| 'a' as u8 <= byte <= 'z' as u8
            ||| "!#$%&'*+-.^_`|~"@.contains(byte as char)
        },
{
    reveal_strlit("!#$%&'*+-.^_`|~");
    let marks = "!#$%&'*+-.^_`|~"@;
    assert(marks.len() == 15);
    if result {
        if byte == 0x21 {
            assert(marks[0] == byte as char);
        } else if byte == 0x23 {
            assert(marks[1] == byte as char);
        } else if byte == 0x24 {
            assert(marks[2] == byte as char);
        } else if byte == 0x25 {
            assert(marks[3] == byte as char);
        } else if byte == 0x26 {
            assert(marks[4] == byte as char);
        } else if byte == 0x27 {
            assert(marks[5] == byte as char);
        } else if byte == 0x2a {
            assert(marks[6] == byte as char);
        } else if byte == 0x2b {
            assert(marks[7] == byte as char);
        } else if byte == 0x2d {
            assert(marks[8] == byte as char);
        } else if byte == 0x2e {
            assert(marks[9] == byte as char);
        } else if byte == 0x5e {
            assert(marks[10] == byte as char);
        } else if byte == 0x5f {
            assert(marks[11] == byte as char);
        } else if byte == 0x60 {
            assert(marks[12] == byte as char);
        } else if byte == 0x7c {
            assert(marks[13] == byte as char);
        } else if byte == 0x7e {
            assert(marks[14] == byte as char);
        }
    }
    if marks.contains(byte as char) {
        let i = choose|i: int| 0 <= i < marks.len() && marks[i] == byte as char;
        assert(i == 0 || i == 1 || i == 2 || i == 3 || i == 4 || i == 5 || i == 6 || i == 7 || i
            == 8 || i == 9 || i == 10 || i == 11 || i == 12 || i == 13 || i == 14);
        assert(byte as char == marks[i]);
        assert(byte as int == marks[i] as int);
    }
}

/// A text is a token where it has a byte and all its bytes are those of tokens.
pub proof fn tokens_are_whole(value: &[u8], result: bool, first: bool, index: int)
    requires
        call_ensures(syntax::is_token, (value,), result),
        0 <= index < value@.len(),
        call_ensures(syntax::is_tchar, (value@[index],), first),
    ensures
        result ==> first,
        value@.len() == 1 ==> result == first,
{
}

/// A list with its members set apart by commas.
pub open spec fn listed(members: Seq<Seq<u8>>) -> Seq<u8>
    decreases members.len(),
{
    if members.len() == 0 {
        Seq::empty()
    } else if members.len() == 1 {
        members[0]
    } else {
        members[0] + seq![','  as u8] + listed(members.skip(1))
    }
}

/// Whether a text has neither commas nor quotes.
pub open spec fn unlisted(text: Seq<u8>) -> bool {
    forall|i: int| 0 <= i < text.len() ==> #[trigger] text[i] != ',' as u8 && text[i] != '"' as u8
}

proof fn member_is_passed(input: Seq<u8>, start: nat, index: nat, end: nat)
    requires
        start <= index <= end <= input.len(),
        unlisted(input.subrange(index as int, end as int)),
    ensures
        values::members_from(input, start, index, false, false) == values::members_from(
            input,
            start,
            end,
            false,
            false,
        ),
    decreases end - index,
{
    if index < end {
        let here = input.subrange(index as int, end as int);
        let later = input.subrange(index as int + 1, end as int);
        assert(here[0] == input[index as int]);
        assert(unlisted(later)) by {
            assert forall|i: int| 0 <= i < later.len() implies #[trigger] later[i] != ',' as u8
                && later[i] != '"' as u8 by {
                assert(later[i] == here[i + 1]);
            }
        }
        member_is_passed(input, start, index + 1, end);
    }
}

proof fn list_from(input: Seq<u8>, start: nat, members: Seq<Seq<u8>>)
    requires
        start <= input.len(),
        input.skip(start as int) == listed(members),
        members.len() > 0,
        forall|i: int| 0 <= i < members.len() ==> (#[trigger] members[i]).len() > 0 && unlisted(members[i]),
    ensures
        values::members_from(input, start, start, false, false) == (members, true),
    decreases members.len(),
{
    let rest = input.skip(start as int);
    let first = members[0];
    let end = start + first.len();
    assert(first.len() > 0 && unlisted(first));
    if members.len() == 1 {
        assert(end == input.len());
        assert(input.subrange(start as int, end as int) =~= first);
        member_is_passed(input, start, start, end);
        assert(values::members_from(input, start, end, false, false).0 =~= members);
    } else {
        let others = members.skip(1);
        let text = first + seq![',' as u8] + listed(others);
        assert(rest == text);
        assert(input.len() == start + text.len());
        assert(input.subrange(start as int, end as int) =~= first) by {
            assert forall|i: int| 0 <= i < first.len() implies input[start + i] == first[i] by {
                assert(rest[i] == input[start + i]);
            }
        }
        assert(input[end as int] == ',' as u8) by {
            assert(rest[first.len() as int] == input[(start + first.len()) as int]);
        }
        member_is_passed(input, start, start, end);
        assert(input.skip(end as int + 1) =~= listed(others)) by {
            assert forall|i: int| 0 <= i < listed(others).len() implies input[end + 1 + i] == listed(others)[i] by {
                assert(rest[first.len() + 1 + i] == input[start + first.len() + 1 + i]);
            }
        }
        assert forall|i: int| 0 <= i < others.len() implies (#[trigger] others[i]).len() > 0
            && unlisted(others[i]) by {
            assert(others[i] == members[i + 1]);
        }
        list_from(input, end + 1, others);
        assert(seq![first] + others =~= members);
    }
}

/// A list is taken apart at its commas: members that have neither commas nor quotes
/// come back from the list that was made of them.
pub proof fn list_gives_members_back(members: Seq<Seq<u8>>)
    requires
        members.len() > 0,
        forall|i: int| 0 <= i < members.len() ==> (#[trigger] members[i]).len() > 0 && unlisted(members[i]),
    ensures
        values::members(listed(members)) == (members, true),
{
    let input = listed(members);
    assert(input.skip(0) =~= input);
    list_from(input, 0, members);
}

proof fn list_is_rebuilt(input: Seq<u8>, start: nat, index: nat, quoted: bool, escaped: bool)
    requires
        start <= index <= input.len(),
    ensures
        ({
            let (members, complete) = values::members_from(input, start, index, quoted, escaped);
            complete ==> listed(members) == input.skip(start as int) && members.len() > 0 && (
            forall|i: int| 0 <= i < members.len() ==> (#[trigger] members[i]).len() > 0)
        }),
    decreases input.len() - index,
{
    if index < input.len() {
        list_is_rebuilt(input, start, index + 1, quoted, false);
        list_is_rebuilt(input, start, index + 1, quoted, true);
        list_is_rebuilt(input, start, index + 1, !quoted, false);
        list_is_rebuilt(input, index + 1, index + 1, false, false);
        let byte = input[index as int];
        if !escaped && !(quoted && byte == BACKSLASH) && byte != QUOTE && byte == COMMA && !quoted
            && index != start {
            let rest = values::members_from(input, index + 1, index + 1, false, false);
            let first = input.subrange(start as int, index as int);
            let all = seq![first] + rest.0;
            if rest.1 {
                assert(all.skip(1) =~= rest.0);
                assert(listed(all) =~= input.skip(start as int));
                assert forall|i: int| 0 <= i < all.len() implies (#[trigger] all[i]).len() > 0 by {
                    if i > 0 {
                        assert(all[i] == rest.0[i - 1]);
                    }
                }
            }
        }
    } else if !(quoted || escaped || start >= input.len()) {
        assert(input.subrange(start as int, input.len() as int) =~= input.skip(start as int));
        let one = seq![input.skip(start as int)];
        assert(listed(one) == one[0]);
    }
}

/// A list that is well formed is its members with commas between them, and none of
/// them is empty.
pub proof fn members_make_up_the_list(value: Seq<u8>)
    ensures
        values::members(value).1 ==> listed(values::members(value).0) == value && values::members(
            value,
        ).0.len() > 0 && forall|i: int|
            0 <= i < values::members(value).0.len() ==> (#[trigger] values::members(
                value,
            ).0[i]).len() > 0,
{
    list_is_rebuilt(value, 0, 0, false, false);
    assert(value.skip(0) =~= value);
}

proof fn quoted_text_is_passed(input: Seq<u8>, start: nat, index: nat, end: nat)
    requires
        start <= index <= end <= input.len(),
        forall|i: int|
            index <= i < end ==> #[trigger] input[i] != '"' as u8 && input[i] != '\\' as u8,
    ensures
        values::members_from(input, start, index, true, false) == values::members_from(
            input,
            start,
            end,
            true,
            false,
        ),
    decreases end - index,
{
    if index < end {
        assert(input[index as int] != '"' as u8);
        quoted_text_is_passed(input, start, index + 1, end);
    }
}

/// A comma inside quotes separates nothing: a quoted text is one member, and a list
/// whose quotes do not close is malformed.
pub proof fn quotes_hold_commas(text: Seq<u8>)
    requires
        forall|i: int|
            0 <= i < text.len() ==> #[trigger] text[i] != '"' as u8 && text[i] != '\\' as u8,
    ensures
        values::members(seq!['"' as u8] + text + seq!['"' as u8]) == (
            seq![seq!['"' as u8] + text + seq!['"' as u8]],
            true,
        ),
        !values::members(seq!['"' as u8] + text).1,
{
    let open = seq!['"' as u8] + text;
    let whole = open + seq!['"' as u8];
    let end = open.len();
    assert forall|i: int| 1 <= i < end implies #[trigger] whole[i] != '"' as u8 && whole[i]
        != '\\' as u8 by {
        assert(whole[i] == text[i - 1]);
    }
    assert forall|i: int| 1 <= i < end implies #[trigger] open[i] != '"' as u8 && open[i]
        != '\\' as u8 by {
        assert(open[i] == text[i - 1]);
    }
    assert(whole[0] == '"' as u8 && open[0] == '"' as u8 && whole[end as int] == '"' as u8);
    quoted_text_is_passed(whole, 0, 1, end);
    quoted_text_is_passed(open, 0, 1, end);
    reveal_with_fuel(values::members_from, 3);
    assert(whole.subrange(0, whole.len() as int) =~= whole);
}

/// Bytes are compared one by one, looked for from the front, and lowered where they are
/// capitals.
pub proof fn bytes_are_told_apart(
    left: &[u8],
    right: &[u8],
    same: bool,
    wanted: u8,
    held: bool,
    found: usize,
    lowered: u8,
)
    requires
        call_ensures(ascii::same, (left, right), same),
        call_ensures(ascii::contains, (left, wanted), held),
        call_ensures(ascii::find, (left, wanted), found),
        call_ensures(ascii::to_lower, (wanted,), lowered),
    ensures
        same <==> left@ == right@,
        held <==> exists|i: int| 0 <= i < left@.len() && #[trigger] left@[i] == wanted,
        found <= left@.len(),
        held <==> found < left@.len(),
        found < left@.len() ==> left@[found as int] == wanted,
        forall|i: int| 0 <= i < found ==> #[trigger] left@[i] != wanted,
        same_letter(lowered, wanted),
        !('A' as u8 <= lowered <= 'Z' as u8),
{
    ascii::position_is_first(left@, wanted);
    if held {
        let i = choose|i: int| 0 <= i < left@.len() && left@[i] == wanted;
        assert(left@[i] == wanted);
    }
}

/// Trimming one end leaves the other as it is.
pub proof fn ends_are_trimmed_by_themselves(
    front: Seq<u8>,
    text: Seq<u8>,
    back: Seq<u8>,
    value: &[u8],
    start: &[u8],
    end: &[u8],
)
    requires
        call_ensures(syntax::trim_start, (value,), start),
        call_ensures(syntax::trim_end, (value,), end),
        value@ == front + text + back,
        all_blank(front),
        all_blank(back),
        tight(text),
        text.len() > 0,
    ensures
        start@ == text + back,
        end@ == front + text,
{
    assert(value@ =~= front + (text + back));
    leading_blanks_go(front, text + back);
    assert((text + back)[0] == text[0]);
    trailing_blanks_go(front + text, back);
    assert((front + text).last() == text.last());
}

/// A number is written in decimal digits, which count in tens.
pub proof fn numbers_are_written_in_tens(
    value: u64,
    digit: u64,
    longer: u64,
    text: String,
    more: String,
    single: String,
)
    requires
        0 < value,
        digit < 10,
        longer == 10 * value + digit,
        call_ensures(ascii::decimal_text, (value,), text),
        call_ensures(ascii::decimal_text, (longer,), more),
        call_ensures(ascii::decimal_text, (digit,), single),
    ensures
        single@.len() == 1 && single@[0] as u32 == '0' as u32 + digit,
        more@ == text@ + single@,
{
    reveal_strlit("0");
    reveal_strlit("1");
    reveal_strlit("2");
    reveal_strlit("3");
    reveal_strlit("4");
    reveal_strlit("5");
    reveal_strlit("6");
    reveal_strlit("7");
    reveal_strlit("8");
    reveal_strlit("9");
    assert(longer as nat / 10 == value as nat) by (nonlinear_arith)
        requires
            longer == 10 * value + digit,
            digit < 10,
    ;
    assert(longer as nat % 10 == digit as nat) by (nonlinear_arith)
        requires
            longer == 10 * value + digit,
            digit < 10,
    ;
}

} // verus!
