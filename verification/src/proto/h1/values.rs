//! What the values of framing and connection fields mean.

use crate::ascii::{self, same_ignoring_case, BACKSLASH, COMMA, EQUALS, QUOTE, SEMICOLON, SLASH};
use crate::outside::fields;
use crate::proto::h1::head::HeadError;
use crate::proto::h1::syntax::{self, is_token, token_len, trim_ows, value_len};
use vstd::prelude::*;

verus! {

/// The members of a comma-separated list that has been read up to `index`, the
/// present member starting at `start`, and whether the list ends well. Commas
/// inside quoted strings separate nothing, and no member is empty.
pub open spec fn members_from(
    input: Seq<u8>,
    start: nat,
    index: nat,
    quoted: bool,
    escaped: bool,
) -> (Seq<Seq<u8>>, bool)
    decreases input.len() - index,
{
    if index >= input.len() {
        if quoted || escaped || start >= input.len() {
            (Seq::empty(), false)
        } else {
            (seq![input.subrange(start as int, input.len() as int)], true)
        }
    } else {
        let byte = input[index as int];
        if escaped {
            members_from(input, start, index + 1, quoted, false)
        } else if quoted && byte == BACKSLASH {
            members_from(input, start, index + 1, quoted, true)
        } else if byte == QUOTE {
            members_from(input, start, index + 1, !quoted, false)
        } else if byte == COMMA && !quoted {
            if index == start {
                (Seq::empty(), false)
            } else {
                let rest = members_from(input, index + 1, index + 1, false, false);
                (seq![input.subrange(start as int, index as int)] + rest.0, rest.1)
            }
        } else {
            members_from(input, start, index + 1, quoted, false)
        }
    }
}

/// The members of a comma-separated list, up to where it is malformed, and
/// whether it is well formed.
pub open spec fn members(input: Seq<u8>) -> (Seq<Seq<u8>>, bool) {
    members_from(input, 0, 0, false, false)
}

/// The members of the lists of several values, up to where one is malformed.
pub open spec fn all_members(values: Seq<Seq<u8>>) -> (Seq<Seq<u8>>, bool)
    decreases values.len(),
{
    if values.len() == 0 {
        (Seq::empty(), true)
    } else {
        let first = members(values[0]);
        if first.1 {
            let rest = all_members(values.skip(1));
            (first.0 + rest.0, rest.1)
        } else {
            first
        }
    }
}

/// Adds the members of a list to those found before.
fn add_members<'a>(input: &'a [u8], found: &mut Vec<&'a [u8]>) -> (complete: bool)
    ensures
        complete == members(input@).1,
        fields::views(final(found)@) == fields::views(old(found)@) + members(input@).0,
{
    let mut start: usize = 0;
    let mut index: usize = 0;
    let mut quoted = false;
    let mut escaped = false;
    let ghost before = fields::views(found@);
    assert(fields::views(found@) + members(input@).0 =~= before + members(input@).0);
    while index < input.len()
        invariant
            start <= index <= input.len(),
            before == fields::views(old(found)@),
            escaped ==> quoted,
            ({
                let rest = members_from(
                    input@,
                    start as nat,
                    index as nat,
                    quoted,
                    escaped,
                );
                &&& rest.1 == members(input@).1
                &&& fields::views(found@) + rest.0 == before + members(input@).0
            }),
        decreases input.len() - index,
    {
        let byte = input[index];
        let ghost rest = members_from(input@, start as nat, index as nat, quoted, escaped);
        if escaped {
            escaped = false;
        } else if quoted && byte == BACKSLASH {
            escaped = true;
        } else if byte == QUOTE {
            quoted = !quoted;
        } else if byte == COMMA && !quoted {
            if index == start {
                assert(fields::views(found@) + rest.0 =~= fields::views(found@));
                return false;
            }
            let ghost held = found@;
            let member = &input[start..index];
            found.push(member);
            proof {
                let later = members_from(input@, (index + 1) as nat, (index + 1) as nat, false, false);
                assert(fields::views(found@) =~= fields::views(held).push(member@));
                assert(fields::views(found@) + later.0 =~= fields::views(held) + rest.0);
            }
            start = index + 1;
        }
        index = index + 1;
    }
    if quoted || escaped || start == input.len() {
        assert(fields::views(found@) + Seq::<Seq<u8>>::empty() =~= fields::views(found@));
        return false;
    }
    let ghost held = found@;
    let member = &input[start..input.len()];
    found.push(member);
    assert(fields::views(found@) =~= fields::views(held) + seq![member@]);
    true
}

/// The members of the lists of several values, up to where one is malformed, and
/// whether none is.
pub fn list_members<'a>(values: &Vec<&'a [u8]>) -> (result: (Vec<&'a [u8]>, bool))
    ensures
        fields::views(result.0@) == all_members(fields::views(values@)).0,
        result.1 == all_members(fields::views(values@)).1,
{
    let mut found: Vec<&'a [u8]> = Vec::new();
    let ghost all = fields::views(values@);
    let mut index: usize = 0;
    assert(all.skip(0) =~= all);
    assert(fields::views(found@) + all_members(all).0 =~= all_members(all).0);
    while index < values.len()
        invariant
            index <= values.len(),
            all == fields::views(values@),
            all_members(all).1 == all_members(all.skip(index as int)).1,
            fields::views(found@) + all_members(all.skip(index as int)).0 == all_members(all).0,
        decreases values.len() - index,
    {
        let ghost held = fields::views(found@);
        let ghost rest = all.skip(index as int);
        let complete = add_members(values[index], &mut found);
        proof {
            assert(rest[0] == values@[index as int]@);
            assert(rest.skip(1) =~= all.skip(index + 1));
            let first = members(rest[0]).0;
            let later = all_members(rest.skip(1)).0;
            assert((held + first) + later =~= held + (first + later));
        }
        if !complete {
            return (found, false);
        }
        index = index + 1;
    }
    assert(all.skip(index as int) =~= Seq::empty());
    assert(fields::views(found@) + Seq::<Seq<u8>>::empty() =~= fields::views(found@));
    (found, true)
}

/// What the members of a list say, unless the list is malformed behind them.
pub open spec fn if_complete<T>(
    said: Result<T, HeadError>,
    complete: bool,
    malformed: HeadError,
) -> Result<T, HeadError> {
    match said {
        Err(error) => Err(error),
        Ok(value) => if complete {
            Ok(value)
        } else {
            Err(malformed)
        },
    }
}

/// The number that decimal digits stand for.
pub open spec fn decimal_value(digits: Seq<u8>) -> nat
    decreases digits.len(),
{
    if digits.len() == 0 {
        0
    } else {
        10 * decimal_value(digits.drop_last()) + (digits.last() - 0x30) as nat
    }
}

pub open spec fn all_digits(digits: Seq<u8>) -> bool {
    forall|i: int| 0 <= i < digits.len() ==> ascii::is_digit(#[trigger] digits[i])
}

/// The length that a member of a content length states.
pub open spec fn stated_length(member: Seq<u8>) -> Option<u64> {
    let digits = syntax::trimmed(member);
    if digits.len() > 0 && all_digits(digits) && decimal_value(digits) <= u64::MAX {
        Some(decimal_value(digits) as u64)
    } else {
        None
    }
}

/// The one length that all members state.
pub open spec fn agreed_length(stated: Seq<Seq<u8>>, before: Option<u64>) -> Result<
    Option<u64>,
    HeadError,
>
    decreases stated.len(),
{
    if stated.len() == 0 {
        Ok(before)
    } else {
        match stated_length(stated[0]) {
            None => Err(HeadError::InvalidContentLength),
            Some(length) => if before is Some && before->0 != length {
                Err(HeadError::AmbiguousMessageLength)
            } else {
                agreed_length(stated.skip(1), Some(length))
            },
        }
    }
}

/// What the content length fields state.
pub open spec fn content_length(values: Seq<Seq<u8>>) -> Result<Option<u64>, HeadError> {
    let list = all_members(values);
    if_complete(agreed_length(list.0, None), list.1, HeadError::InvalidContentLength)
}

proof fn decimal_value_grows(digits: Seq<u8>, length: int)
    requires
        0 <= length <= digits.len(),
        all_digits(digits),
    ensures
        decimal_value(digits.take(length)) <= decimal_value(digits),
    decreases digits.len(),
{
    if length == digits.len() {
        assert(digits.take(length) =~= digits);
    } else {
        assert(ascii::is_digit(digits.last()));
        assert forall|i: int| 0 <= i < digits.drop_last().len() implies ascii::is_digit(
            #[trigger] digits.drop_last()[i],
        ) by {
            assert(ascii::is_digit(digits[i]));
        }
        decimal_value_grows(digits.drop_last(), length);
        assert(digits.drop_last().take(length) =~= digits.take(length));
    }
}

fn parse_length(member: &[u8]) -> (result: Option<u64>)
    ensures
        result == stated_length(member@),
{
    let digits = trim_ows(member);
    if digits.len() == 0 {
        return None;
    }
    for index in 0..digits.len()
        invariant
            digits@ == syntax::trimmed(member@),
            forall|i: int| 0 <= i < index ==> ascii::is_digit(#[trigger] digits@[i]),
    {
        if digits[index] < 0x30 || digits[index] > 0x39 {
            assert(!ascii::is_digit(digits@[index as int]));
            return None;
        }
    }
    let mut value: u64 = 0;
    assert(digits@.take(0) =~= Seq::empty());
    for index in 0..digits.len()
        invariant
            digits@ == syntax::trimmed(member@),
            all_digits(digits@),
            value == decimal_value(digits@.take(index as int)),
    {
        assert(ascii::is_digit(digits@[index as int]));
        let digit: u64 = (digits[index] - 0x30) as u64;
        proof {
            let prefix = digits@.take(index + 1);
            assert(prefix.drop_last() =~= digits@.take(index as int));
            assert(decimal_value(prefix) == 10 * value + digit);
            decimal_value_grows(digits@, index + 1);
        }
        value = match value.checked_mul(10) {
            Some(value) => match value.checked_add(digit) {
                Some(value) => value,
                None => return None,
            },
            None => return None,
        };
    }
    assert(digits@.take(digits.len() as int) =~= digits@);
    Some(value)
}

/// What content length values state.
pub fn read_content_length(values: &Vec<&[u8]>) -> (result: Result<Option<u64>, HeadError>)
    ensures
        result == content_length(fields::views(values@)),
{
    let (stated, complete) = list_members(values);
    let ghost all = fields::views(stated@);
    let mut agreed: Option<u64> = None;
    let mut index: usize = 0;
    assert(all.skip(0) =~= all);
    while index < stated.len()
        invariant
            index <= stated.len(),
            all == fields::views(stated@),
            agreed_length(all, None) == agreed_length(all.skip(index as int), agreed),
            all == all_members(fields::views(values@)).0,
        decreases stated.len() - index,
    {
        proof {
            assert(all.skip(index as int)[0] == stated@[index as int]@);
            assert(all.skip(index as int).skip(1) =~= all.skip(index + 1));
        }
        let length = match parse_length(stated[index]) {
            Some(length) => length,
            None => return Err(HeadError::InvalidContentLength),
        };
        if let Some(before) = agreed {
            if before != length {
                return Err(HeadError::AmbiguousMessageLength);
            }
        }
        agreed = Some(length);
        index = index + 1;
    }
    assert(all.skip(index as int) =~= Seq::empty());
    if complete {
        Ok(agreed)
    } else {
        Err(HeadError::InvalidContentLength)
    }
}

/// How a body is framed by its transfer coding.
#[derive(Clone, Copy, Debug, PartialEq, Eq, Structural)]
pub enum TransferFraming {
    Chunked,
}

/// What is left behind the transfer parameter that the input starts with.
pub open spec fn parameter_rest(input: Seq<u8>) -> Option<Seq<u8>> {
    if input.len() == 0 || input[0] != SEMICOLON {
        None
    } else {
        let name = syntax::trimmed(input.skip(1));
        let length = syntax::token_len_of(name);
        let rest = syntax::trimmed(name.skip(length as int));
        if length == 0 || rest.len() == 0 || rest[0] != EQUALS {
            None
        } else {
            let value = syntax::trimmed(rest.skip(1));
            match syntax::value_len_of(value) {
                Some(length) => {
                    let rest = syntax::trimmed(value.skip(length as int));
                    if rest.len() == 0 || rest[0] == SEMICOLON {
                        Some(rest)
                    } else {
                        None
                    }
                },
                None => None,
            }
        }
    }
}

pub proof fn parameter_rest_shrinks(input: Seq<u8>)
    ensures
        parameter_rest(input) is Some ==> parameter_rest(input)->0.len() < input.len(),
{
    if input.len() > 0 {
        let name = syntax::trimmed(input.skip(1));
        let length = syntax::token_len_of(name);
        let rest = syntax::trimmed(name.skip(length as int));
        let value = syntax::trimmed(rest.skip(1));
        syntax::trimmed_shortens(input.skip(1));
        syntax::token_len_bounds(name);
        syntax::trimmed_shortens(name.skip(length as int));
        syntax::trimmed_shortens(rest.skip(1));
        syntax::value_len_bounds(value);
        if syntax::value_len_of(value) is Some {
            syntax::trimmed_shortens(value.skip(syntax::value_len_of(value)->0 as int));
        }
    }
}

/// A sequence of well-formed transfer parameters.
pub open spec fn parameters_valid(input: Seq<u8>) -> bool
    decreases input.len(),
{
    if input.len() == 0 {
        true
    } else {
        proof {
            parameter_rest_shrinks(input);
        }
        match parameter_rest(input) {
            Some(rest) => parameters_valid(rest),
            None => false,
        }
    }
}

/// The coding that a member names, and its parameters.
pub open spec fn coding_of(member: Seq<u8>) -> (Seq<u8>, Seq<u8>) {
    let member = syntax::trimmed(member);
    let split = ascii::position(member, SEMICOLON) as int;
    (syntax::trimmed(member.take(split)), member.skip(split))
}

/// The transfer codings seen so far: whether there are any, whether one is
/// chunked, whether the last one is, and whether one is not supported.
#[derive(Clone, Copy, Debug, PartialEq, Eq, Structural)]
pub struct Codings {
    pub any: bool,
    pub chunked: bool,
    pub chunked_last: bool,
    pub unsupported: bool,
}

pub open spec fn no_codings() -> Codings {
    Codings { any: false, chunked: false, chunked_last: false, unsupported: false }
}

pub open spec fn is_chunked_name(coding: Seq<u8>) -> bool {
    ascii::lowered(coding) == fields::named("chunked")
}

/// The codings with one more member, `None` where it is malformed or a second
/// chunked coding, or gives the chunked coding parameters.
pub open spec fn with_coding(before: Codings, member: Seq<u8>) -> Option<Codings> {
    let (coding, parameters) = coding_of(member);
    if !syntax::is_token_text(coding) || !parameters_valid(parameters) {
        None
    } else if is_chunked_name(coding) {
        if before.chunked || parameters.len() > 0 {
            None
        } else {
            Some(Codings { any: true, chunked: true, chunked_last: true, ..before })
        }
    } else {
        Some(Codings { any: true, chunked_last: false, unsupported: true, ..before })
    }
}

pub open spec fn codings_from(listed: Seq<Seq<u8>>, before: Codings) -> Result<Codings, HeadError>
    decreases listed.len(),
{
    if listed.len() == 0 {
        Ok(before)
    } else {
        match with_coding(before, listed[0]) {
            Some(codings) => codings_from(listed.skip(1), codings),
            None => Err(HeadError::InvalidTransferEncoding),
        }
    }
}

/// How the transfer codings frame the body.
pub open spec fn framing_of(codings: Codings) -> Result<Option<TransferFraming>, HeadError> {
    if !codings.any {
        Ok(None)
    } else if !codings.chunked_last {
        Err(HeadError::InvalidTransferEncoding)
    } else if codings.unsupported {
        Err(HeadError::UnsupportedTransferCoding)
    } else {
        Ok(Some(TransferFraming::Chunked))
    }
}

/// How the transfer encoding fields frame the body: the chunked coding comes
/// last and once, and no other coding is understood.
pub open spec fn transfer_encoding(values: Seq<Seq<u8>>) -> Result<
    Option<TransferFraming>,
    HeadError,
> {
    let list = all_members(values);
    match if_complete(
        codings_from(list.0, no_codings()),
        list.1,
        HeadError::InvalidTransferEncoding,
    ) {
        Ok(codings) => framing_of(codings),
        Err(error) => Err(error),
    }
}

/// Accepts a sequence of well-formed transfer parameters.
pub fn validate_transfer_parameters(parameters: &[u8]) -> (result: bool)
    ensures
        result == parameters_valid(parameters@),
{
    let mut input = parameters;
    while input.len() > 0
        invariant
            parameters_valid(parameters@) == parameters_valid(input@),
        decreases input.len(),
    {
        proof {
            parameter_rest_shrinks(input@);
        }
        if input[0] != SEMICOLON {
            return false;
        }
        let name = trim_ows(&input[1..input.len()]);
        assert(input@.subrange(1, input.len() as int) =~= input@.skip(1));
        let length = token_len(name);
        if length == 0 {
            return false;
        }
        let rest = trim_ows(&name[length..name.len()]);
        assert(name@.subrange(length as int, name.len() as int) =~= name@.skip(length as int));
        if rest.len() == 0 || rest[0] != EQUALS {
            return false;
        }
        let value = trim_ows(&rest[1..rest.len()]);
        assert(rest@.subrange(1, rest.len() as int) =~= rest@.skip(1));
        let length = match value_len(value) {
            Some(length) => length,
            None => return false,
        };
        let rest = trim_ows(&value[length..value.len()]);
        assert(value@.subrange(length as int, value.len() as int) =~= value@.skip(length as int));
        if rest.len() > 0 && rest[0] != SEMICOLON {
            return false;
        }
        input = rest;
    }
    true
}

fn add_coding(before: Codings, member: &[u8]) -> (result: Option<Codings>)
    ensures
        result == with_coding(before, member@),
{
    let member = trim_ows(member);
    let split = ascii::find(member, SEMICOLON);
    let coding = trim_ows(&member[0..split]);
    assert(member@.subrange(0, split as int) =~= member@.take(split as int));
    let parameters = &member[split..member.len()];
    assert(parameters@ =~= member@.skip(split as int));
    if !is_token(coding) || !validate_transfer_parameters(parameters) {
        return None;
    }
    if same_ignoring_case(coding, "chunked".as_bytes()) {
        if before.chunked || parameters.len() > 0 {
            None
        } else {
            Some(
                Codings {
                    any: true,
                    chunked: true,
                    chunked_last: true,
                    unsupported: before.unsupported,
                },
            )
        }
    } else {
        Some(
            Codings {
                any: true,
                chunked: before.chunked,
                chunked_last: false,
                unsupported: true,
            },
        )
    }
}

/// How transfer encoding values frame the body.
pub fn read_transfer_encoding(values: &Vec<&[u8]>) -> (result: Result<
    Option<TransferFraming>,
    HeadError,
>)
    ensures
        result == transfer_encoding(fields::views(values@)),
{
    let (listed, complete) = list_members(values);
    let ghost all = fields::views(listed@);
    let mut codings = Codings {
        any: false,
        chunked: false,
        chunked_last: false,
        unsupported: false,
    };
    let mut index: usize = 0;
    assert(all.skip(0) =~= all);
    while index < listed.len()
        invariant
            index <= listed.len(),
            all == fields::views(listed@),
            codings_from(all, no_codings()) == codings_from(all.skip(index as int), codings),
            all == all_members(fields::views(values@)).0,
        decreases listed.len() - index,
    {
        proof {
            assert(all.skip(index as int)[0] == listed@[index as int]@);
            assert(all.skip(index as int).skip(1) =~= all.skip(index + 1));
        }
        codings = match add_coding(codings, listed[index]) {
            Some(codings) => codings,
            None => return Err(HeadError::InvalidTransferEncoding),
        };
        index = index + 1;
    }
    assert(all.skip(index as int) =~= Seq::empty());
    if !complete {
        return Err(HeadError::InvalidTransferEncoding);
    }
    if !codings.any {
        Ok(None)
    } else if !codings.chunked_last {
        Err(HeadError::InvalidTransferEncoding)
    } else if codings.unsupported {
        Err(HeadError::UnsupportedTransferCoding)
    } else {
        Ok(Some(TransferFraming::Chunked))
    }
}

/// What the connection fields ask for.
#[derive(Clone, Copy, Debug, PartialEq, Eq, Structural)]
pub struct ConnectionOptions {
    pub close: bool,
    pub keep_alive: bool,
    pub upgrade: bool,
}

pub open spec fn no_options() -> ConnectionOptions {
    ConnectionOptions { close: false, keep_alive: false, upgrade: false }
}

/// The options with one more member, `None` where it is no token.
pub open spec fn with_option(before: ConnectionOptions, member: Seq<u8>) -> Option<
    ConnectionOptions,
> {
    let token = syntax::trimmed(member);
    if !syntax::is_token_text(token) {
        None
    } else if ascii::lowered(token) == fields::named("close") {
        Some(ConnectionOptions { close: true, ..before })
    } else if ascii::lowered(token) == fields::named("keep-alive") {
        Some(ConnectionOptions { keep_alive: true, ..before })
    } else if ascii::lowered(token) == fields::named("upgrade") {
        Some(ConnectionOptions { upgrade: true, ..before })
    } else {
        Some(before)
    }
}

pub open spec fn options_from(listed: Seq<Seq<u8>>, before: ConnectionOptions) -> Result<
    ConnectionOptions,
    HeadError,
>
    decreases listed.len(),
{
    if listed.len() == 0 {
        Ok(before)
    } else {
        match with_option(before, listed[0]) {
            Some(options) => options_from(listed.skip(1), options),
            None => Err(HeadError::InvalidConnection),
        }
    }
}

/// What the connection fields ask for.
pub open spec fn connection_of(values: Seq<Seq<u8>>) -> Result<ConnectionOptions, HeadError> {
    let list = all_members(values);
    if_complete(options_from(list.0, no_options()), list.1, HeadError::InvalidConnection)
}

/// What connection values ask for.
pub fn read_connection(values: &Vec<&[u8]>) -> (result: Result<ConnectionOptions, HeadError>)
    ensures
        result == connection_of(fields::views(values@)),
{
    let (listed, complete) = list_members(values);
    let ghost all = fields::views(listed@);
    let mut options = ConnectionOptions { close: false, keep_alive: false, upgrade: false };
    let mut index: usize = 0;
    assert(all.skip(0) =~= all);
    while index < listed.len()
        invariant
            index <= listed.len(),
            all == fields::views(listed@),
            options_from(all, no_options()) == options_from(all.skip(index as int), options),
            all == all_members(fields::views(values@)).0,
        decreases listed.len() - index,
    {
        proof {
            assert(all.skip(index as int)[0] == listed@[index as int]@);
            assert(all.skip(index as int).skip(1) =~= all.skip(index + 1));
        }
        let token = trim_ows(listed[index]);
        if !is_token(token) {
            return Err(HeadError::InvalidConnection);
        }
        if same_ignoring_case(token, "close".as_bytes()) {
            options.close = true;
        } else if same_ignoring_case(token, "keep-alive".as_bytes()) {
            options.keep_alive = true;
        } else if same_ignoring_case(token, "upgrade".as_bytes()) {
            options.upgrade = true;
        }
        index = index + 1;
    }
    assert(all.skip(index as int) =~= Seq::empty());
    if complete {
        Ok(options)
    } else {
        Err(HeadError::InvalidConnection)
    }
}

/// Whether every member is the one expectation that exists.
pub open spec fn all_continue(listed: Seq<Seq<u8>>) -> bool {
    forall|i: int|
        0 <= i < listed.len() ==> ascii::lowered(syntax::trimmed(#[trigger] listed[i])) == fields::named(
            "100-continue",
        )
}

/// Whether the expectation fields ask to wait for permission.
pub open spec fn expects_continue(values: Seq<Seq<u8>>) -> Result<bool, HeadError> {
    let list = all_members(values);
    if all_continue(list.0) && list.1 {
        Ok(list.0.len() > 0)
    } else {
        Err(HeadError::InvalidExpectation)
    }
}

/// Whether expectation values ask to wait for permission.
pub fn read_expectation(values: &Vec<&[u8]>) -> (result: Result<bool, HeadError>)
    ensures
        result == expects_continue(fields::views(values@)),
{
    let (listed, complete) = list_members(values);
    let ghost all = fields::views(listed@);
    for index in 0..listed.len()
        invariant
            all == fields::views(listed@),
            all == all_members(fields::views(values@)).0,
            forall|i: int|
                0 <= i < index ==> ascii::lowered(syntax::trimmed(#[trigger] all[i])) == fields::named(
                    "100-continue",
                ),
    {
        assert(all[index as int] == listed@[index as int]@);
        if !same_ignoring_case(trim_ows(listed[index]), "100-continue".as_bytes()) {
            return Err(HeadError::InvalidExpectation);
        }
    }
    if complete {
        Ok(listed.len() > 0)
    } else {
        Err(HeadError::InvalidExpectation)
    }
}

/// A protocol name, with a version behind a slash where there is one.
pub open spec fn is_protocol(member: Seq<u8>) -> bool {
    let member = syntax::trimmed(member);
    let split = ascii::position(member, SLASH) as int;
    &&& syntax::is_token_text(member.take(split))
    &&& split < member.len() ==> syntax::is_token_text(member.skip(split + 1))
}

pub open spec fn all_protocols(listed: Seq<Seq<u8>>) -> bool {
    forall|i: int| 0 <= i < listed.len() ==> is_protocol(#[trigger] listed[i])
}

/// Whether the upgrade fields name a protocol.
pub open spec fn names_protocol(values: Seq<Seq<u8>>) -> Result<bool, HeadError> {
    let list = all_members(values);
    if all_protocols(list.0) && list.1 {
        Ok(list.0.len() > 0)
    } else {
        Err(HeadError::InvalidUpgrade)
    }
}

fn check_protocol(member: &[u8]) -> (result: bool)
    ensures
        result == is_protocol(member@),
{
    let member = trim_ows(member);
    let split = ascii::find(member, SLASH);
    let name = &member[0..split];
    assert(name@ =~= member@.take(split as int));
    if !is_token(name) {
        return false;
    }
    if split < member.len() {
        let version = &member[split + 1..member.len()];
        assert(version@ =~= member@.skip(split + 1));
        is_token(version)
    } else {
        true
    }
}

/// Whether upgrade values name a protocol.
pub fn read_upgrade(values: &Vec<&[u8]>) -> (result: Result<bool, HeadError>)
    ensures
        result == names_protocol(fields::views(values@)),
{
    let (listed, complete) = list_members(values);
    let ghost all = fields::views(listed@);
    for index in 0..listed.len()
        invariant
            all == fields::views(listed@),
            all == all_members(fields::views(values@)).0,
            forall|i: int| 0 <= i < index ==> is_protocol(#[trigger] all[i]),
    {
        assert(all[index as int] == listed@[index as int]@);
        if !check_protocol(listed[index]) {
            return Err(HeadError::InvalidUpgrade);
        }
    }
    if complete {
        Ok(listed.len() > 0)
    } else {
        Err(HeadError::InvalidUpgrade)
    }
}

} // verus!
