//! The head syntax of the `httparse` crate.

use crate::ascii::{COLON, CR, LF, SP};
use crate::outside::fields;
use crate::message;
use crate::outside::octets;
use crate::proto::h1::syntax;
use bytes::Bytes;
use httparse::Error as ParseFault;
use vstd::prelude::*;

verus! {

/// What `httparse::Error` tells apart.
#[derive(Clone, Copy, Debug, PartialEq, Eq, Structural)]
pub enum SyntaxError {
    HeaderName,
    HeaderValue,
    NewLine,
    Status,
    Token,
    TooManyHeaders,
    Version,
}

/// One field line as it was received.
pub struct RawField {
    pub name: Vec<u8>,
    pub value: Bytes,
}

impl View for RawField {
    type V = (Seq<u8>, Seq<u8>);

    open spec fn view(&self) -> (Seq<u8>, Seq<u8>) {
        (self.name@, octets::octets(self.value))
    }
}

/// A block of field lines up to the empty line that ends it.
pub struct RawFields {
    pub consumed: usize,
    pub fields: Vec<RawField>,
}

pub open spec fn field_views(fields: Seq<RawField>) -> Seq<(Seq<u8>, Seq<u8>)> {
    Seq::new(fields.len(), |i: int| fields[i]@)
}

/// The field line `name: value`.
pub open spec fn field_line(name: Seq<u8>, value: Seq<u8>) -> Seq<u8> {
    name + seq![COLON, SP] + value + seq![CR, LF]
}

/// The field lines of a block, without the empty line that ends it.
pub open spec fn field_block(fields: Seq<(Seq<u8>, Seq<u8>)>) -> Seq<u8>
    decreases fields.len(),
{
    if fields.len() == 0 {
        Seq::empty()
    } else {
        field_line(fields[0].0, fields[0].1) + field_block(fields.skip(1))
    }
}

/// A field that its line gives back: a token for a name, and a value without
/// optional whitespace at its ends.
pub open spec fn plain_field(field: (Seq<u8>, Seq<u8>)) -> bool {
    &&& syntax::is_token_text(field.0)
    &&& forall|i: int| 0 <= i < field.1.len() ==> fields::value_byte(#[trigger] field.1[i])
    &&& field.1.len() > 0 ==> !syntax::is_ows(field.1[0]) && !syntax::is_ows(field.1.last())
}

/// Fields that their lines give back.
pub open spec fn plain_fields(fields: Seq<(Seq<u8>, Seq<u8>)>) -> bool {
    forall|i: int| 0 <= i < fields.len() ==> plain_field(#[trigger] fields[i])
}

/// `httparse::Error`, the ways in which a head can be malformed.
#[verifier::external_type_specification]
#[verifier::external_body]
pub struct ExParseFault(ParseFault);

/// The variant of a syntax error.
pub uninterp spec fn error_variant(error: ParseFault) -> SyntaxError;

/// The variants of `httparse::Error`, told apart.
#[verifier::external_body]
pub(crate) fn syntax_error(error: ParseFault) -> (result: SyntaxError)
    ensures
        result == error_variant(error),
{
    match error {
        ParseFault::HeaderName => SyntaxError::HeaderName,
        ParseFault::HeaderValue => SyntaxError::HeaderValue,
        ParseFault::NewLine => SyntaxError::NewLine,
        ParseFault::Status => SyntaxError::Status,
        ParseFault::Token => SyntaxError::Token,
        ParseFault::TooManyHeaders => SyntaxError::TooManyHeaders,
        ParseFault::Version => SyntaxError::Version,
    }
}

/// What `httparse::parse_headers` makes of a block of field lines when it has
/// room for so many fields: how much it read and the fields, or `None` where the
/// block does not end.
pub uninterp spec fn parsed_fields(input: Seq<u8>, slots: nat) -> Result<
    Option<(nat, Seq<(Seq<u8>, Seq<u8>)>)>,
    SyntaxError,
>;

pub open spec fn fields_result(result: Result<Option<RawFields>, ParseFault>) -> Result<
    Option<(nat, Seq<(Seq<u8>, Seq<u8>)>)>,
    SyntaxError,
> {
    match result {
        Ok(Some(block)) => Ok(Some((block.consumed as nat, field_views(block.fields@)))),
        Ok(None) => Ok(None),
        Err(error) => Err(error_variant(error)),
    }
}

/// A block that was read up to its end.
pub open spec fn read_whole(length: nat, fields: Seq<(Seq<u8>, Seq<u8>)>) -> Result<
    Option<(nat, Seq<(Seq<u8>, Seq<u8>)>)>,
    SyntaxError,
> {
    Ok(Some((length, fields)))
}

/// `httparse::parse_headers`. Its result is a function of the input and of the
/// number of slots, and it never reads past the input. A block of plain field
/// lines that fits the slots is read whole and gives its fields back. The slots
/// are set aside before the call, so there may not be more of them than input
/// bytes.
#[verifier::external_body]
pub(crate) fn parse_fields(input: &[u8], slots: usize) -> (result: Result<
    Option<RawFields>,
    ParseFault,
>)
    requires
        slots <= input.len(),
    ensures
        fields_result(result) == parsed_fields(input@, slots as nat),
        result matches Ok(Some(block)) ==> block.consumed <= input.len(),
        forall|fields: Seq<(Seq<u8>, Seq<u8>)>|
            #![trigger field_block(fields)]
            plain_fields(fields) && fields.len() <= slots && input@ == field_block(fields)
                + seq![CR, LF] ==> fields_result(result) == read_whole(input@.len(), fields),
{
    let mut room = vec![httparse::EMPTY_HEADER; slots];
    Ok(match httparse::parse_headers(input, &mut room)? {
        httparse::Status::Complete((consumed, found)) => Some(RawFields {
            consumed,
            fields: found.iter().map(|field| RawField {
                name: field.name.as_bytes().to_vec(),
                value: Bytes::copy_from_slice(field.value),
            }).collect(),
        }),
        httparse::Status::Partial => None,
    })
}

/// A request head as it was received.
pub struct RawRequest {
    pub consumed: usize,
    pub method: Option<Vec<u8>>,
    pub path: Option<Bytes>,
    pub version: Option<u8>,
    pub fields: Vec<RawField>,
}

/// The mathematical content of a received request head.
pub struct RequestLine {
    pub consumed: nat,
    pub method: Option<Seq<u8>>,
    pub path: Option<Seq<u8>>,
    pub version: Option<u8>,
    pub fields: Seq<(Seq<u8>, Seq<u8>)>,
}

impl View for RawRequest {
    type V = RequestLine;

    open spec fn view(&self) -> RequestLine {
        RequestLine {
            consumed: self.consumed as nat,
            method: match self.method {
                Some(method) => Some(method@),
                None => None,
            },
            path: match self.path {
                Some(path) => Some(octets::octets(path)),
                None => None,
            },
            version: self.version,
            fields: field_views(self.fields@),
        }
    }
}

/// A response head as it was received.
pub struct RawResponse {
    pub consumed: usize,
    pub version: Option<u8>,
    pub code: Option<u16>,
    pub fields: Vec<RawField>,
}

/// The mathematical content of a received response head.
pub struct StatusLine {
    pub consumed: nat,
    pub version: Option<u8>,
    pub code: Option<u16>,
    pub fields: Seq<(Seq<u8>, Seq<u8>)>,
}

impl View for RawResponse {
    type V = StatusLine;

    open spec fn view(&self) -> StatusLine {
        StatusLine {
            consumed: self.consumed as nat,
            version: self.version,
            code: self.code,
            fields: field_views(self.fields@),
        }
    }
}

/// What `httparse` makes of a request head when it has room for so many fields,
/// `None` where the head does not end.
pub uninterp spec fn parsed_request(input: Seq<u8>, slots: nat) -> Result<
    Option<RequestLine>,
    SyntaxError,
>;

/// What `httparse` makes of a response head when it has room for so many fields,
/// `None` where the head does not end.
pub uninterp spec fn parsed_response(input: Seq<u8>, slots: nat) -> Result<
    Option<StatusLine>,
    SyntaxError,
>;

pub open spec fn request_result(result: Result<Option<RawRequest>, ParseFault>) -> Result<
    Option<RequestLine>,
    SyntaxError,
> {
    match result {
        Ok(Some(request)) => Ok(Some(request@)),
        Ok(None) => Ok(None),
        Err(error) => Err(error_variant(error)),
    }
}

pub open spec fn response_result(result: Result<Option<RawResponse>, ParseFault>) -> Result<
    Option<StatusLine>,
    SyntaxError,
> {
    match result {
        Ok(Some(response)) => Ok(Some(response@)),
        Ok(None) => Ok(None),
        Err(error) => Err(error_variant(error)),
    }
}

/// The version text of a minor version.
pub open spec fn version_text(minor: u8) -> Seq<u8> {
    seq![0x48u8, 0x54, 0x54, 0x50, 0x2f, 0x31, 0x2e, (0x30 + minor) as u8]
}

/// The start line of a request.
pub open spec fn request_line(method: Seq<u8>, target: Seq<u8>, minor: u8) -> Seq<u8> {
    method + seq![SP] + target + seq![SP] + version_text(minor) + seq![CR, LF]
}

/// The start line of a response.
pub open spec fn status_line(minor: u8, code: u16, reason: Seq<u8>) -> Seq<u8> {
    version_text(minor) + seq![SP] + message::status_digits(code) + seq![SP] + reason + seq![CR, LF]
}

/// A start line that is read back: a token, a target of visible characters, a
/// supported version.
pub open spec fn plain_request_line(method: Seq<u8>, target: Seq<u8>, minor: u8) -> bool {
    &&& syntax::is_token_text(method)
    &&& target.len() > 0
    &&& forall|i: int| 0 <= i < target.len() ==> 0x21 <= #[trigger] target[i] <= 0x7e
    &&& minor <= 1
}

/// A start line that is read back: a supported version, three digits, a reason of
/// visible characters and blanks.
pub open spec fn plain_status_line(minor: u8, code: u16, reason: Seq<u8>) -> bool {
    &&& minor <= 1
    &&& 100 <= code <= 999
    &&& forall|i: int| 0 <= i < reason.len() ==> 0x20 <= #[trigger] reason[i] <= 0x7e
}

/// A request head that was read up to its end.
pub open spec fn whole_request(
    length: nat,
    method: Seq<u8>,
    target: Seq<u8>,
    minor: u8,
    fields: Seq<(Seq<u8>, Seq<u8>)>,
) -> Result<Option<RequestLine>, SyntaxError> {
    Ok(
        Some(
            RequestLine {
                consumed: length,
                method: Some(method),
                path: Some(target),
                version: Some(minor),
                fields,
            },
        ),
    )
}

/// A response head that was read up to its end.
pub open spec fn whole_response(
    length: nat,
    minor: u8,
    code: u16,
    fields: Seq<(Seq<u8>, Seq<u8>)>,
) -> Result<Option<StatusLine>, SyntaxError> {
    Ok(Some(StatusLine { consumed: length, version: Some(minor), code: Some(code), fields }))
}

/// `httparse::ParserConfig::parse_request_with_uninit_headers` with the default
/// configuration. Its result is a function of the input and of the number of
/// slots. A plain start line followed by plain field lines that fit the slots is
/// read whole and gives its parts back. The slots are set aside before the call,
/// so there may not be more of them than input bytes.
#[verifier::external_body]
pub(crate) fn parse_request(input: &Bytes, slots: usize) -> (result: Result<
    Option<RawRequest>,
    ParseFault,
>)
    requires
        slots <= octets::octets(*input).len(),
    ensures
        request_result(result) == parsed_request(octets::octets(*input), slots as nat),
        forall|method: Seq<u8>, target: Seq<u8>, minor: u8, fields: Seq<(Seq<u8>, Seq<u8>)>|
            #![trigger request_line(method, target, minor), field_block(fields)]
            plain_request_line(method, target, minor) && plain_fields(fields) && fields.len()
                <= slots && octets::octets(*input) == request_line(method, target, minor)
                + field_block(fields) + seq![CR, LF] ==> request_result(result) == whole_request(
                octets::octets(*input).len(),
                method,
                target,
                minor,
                fields,
            ),
{
    let mut room = vec![std::mem::MaybeUninit::uninit(); slots];
    let mut request = httparse::Request::new(&mut []);
    let status = httparse::ParserConfig::default().parse_request_with_uninit_headers(&mut request, input, &mut room)?;
    Ok(match status {
        httparse::Status::Complete(consumed) => Some(RawRequest {
            consumed,
            method: request.method.map(|method| method.as_bytes().to_vec()),
            path: request.path.map(|path| input.slice_ref(path.as_bytes())),
            version: request.version,
            fields: request.headers.iter().map(|field| RawField { name: field.name.as_bytes().to_vec(), value: input.slice_ref(field.value) }).collect(),
        }),
        httparse::Status::Partial => None,
    })
}

/// `httparse::ParserConfig::parse_response_with_uninit_headers` with the default
/// configuration. Its result is a function of the input and of the number of
/// slots. A plain start line followed by plain field lines that fit the slots is
/// read whole and gives its parts back. The slots are set aside before the call,
/// so there may not be more of them than input bytes.
#[verifier::external_body]
pub(crate) fn parse_response(input: &Bytes, slots: usize) -> (result: Result<
    Option<RawResponse>,
    ParseFault,
>)
    requires
        slots <= octets::octets(*input).len(),
    ensures
        response_result(result) == parsed_response(octets::octets(*input), slots as nat),
        forall|minor: u8, code: u16, reason: Seq<u8>, fields: Seq<(Seq<u8>, Seq<u8>)>|
            #![trigger status_line(minor, code, reason), field_block(fields)]
            plain_status_line(minor, code, reason) && plain_fields(fields) && fields.len() <= slots
                && octets::octets(*input) == status_line(minor, code, reason) + field_block(fields)
                + seq![CR, LF] ==> response_result(result) == whole_response(
                octets::octets(*input).len(),
                minor,
                code,
                fields,
            ),
{
    let mut room = vec![std::mem::MaybeUninit::uninit(); slots];
    let mut response = httparse::Response::new(&mut []);
    let status = httparse::ParserConfig::default().parse_response_with_uninit_headers(&mut response, input, &mut room)?;
    Ok(match status {
        httparse::Status::Complete(consumed) => Some(RawResponse {
            consumed,
            version: response.version,
            code: response.code,
            fields: response.headers.iter().map(|field| RawField { name: field.name.as_bytes().to_vec(), value: input.slice_ref(field.value) }).collect(),
        }),
        httparse::Status::Partial => None,
    })
}

} // verus!
