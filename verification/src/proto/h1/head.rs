//! Message heads: where they end, what they mean and which ones are refused.

use crate::ascii;
use crate::outside::fields;
use crate::outside::octets;
use crate::outside::wire::{self, RawField};
use crate::ascii::{CR, LF};
use crate::message::{copied, Method, StatusCode, Target, TargetParts, Version};
use crate::outside::start_line;
use crate::outside::wire::{RawRequest, RawResponse, RequestLine, StatusLine, SyntaxError};
use crate::proto::h1::codec_laws;
use crate::proto::h1::scan::{self, HeadScan};
use crate::proto::h1::syntax;
use bytes::Bytes;
use std::marker::PhantomData;
use http::HeaderMap;
use vstd::prelude::*;

verus! {

/// The limit that a head exceeded.
#[derive(Clone, Copy, Debug, PartialEq, Eq, Structural)]
pub enum HeadLimit {
    Bytes,
    Headers,
    HeaderMap,
}

/// Why a head is refused.
#[derive(Clone, Copy, Debug, PartialEq, Eq, Structural)]
pub enum HeadError {
    InvalidStartLine,
    InvalidHeader,
    UnsupportedVersion,
    InvalidMethod,
    InvalidTarget,
    InvalidStatus,
    MissingHost,
    InvalidHost,
    InvalidTargetForm,
    InvalidContentLength,
    AmbiguousMessageLength,
    InvalidTransferEncoding,
    UnsupportedTransferCoding,
    InvalidConnection,
    InvalidExpectation,
    InvalidUpgrade,
    Limit(HeadLimit),
}

/// The number of field slots that a parser is given.
#[derive(Clone, Copy, Debug, PartialEq, Eq, Structural)]
pub struct HeaderWorkspace {
    pub slots: usize,
}

impl HeaderWorkspace {
    pub fn new(capacity: usize) -> (result: Self)
        ensures
            result.slots == capacity,
    {
        HeaderWorkspace { slots: capacity }
    }

    /// The slots that an input can use: a field line is longer than one byte.
    pub fn slots_for(&self, input: &[u8]) -> (result: usize)
        ensures
            result == slots_within(self.slots as nat, input@.len()),
    {
        if self.slots < input.len() {
            self.slots
        } else {
            input.len()
        }
    }
}

/// The smaller of the slots allowed and the bytes at hand.
pub open spec fn slots_within(slots: nat, length: nat) -> nat {
    if slots < length {
        slots
    } else {
        length
    }
}

/// The fields that field lines add up to, names in small letters.
pub open spec fn gathered(lines: Seq<(Seq<u8>, Seq<u8>)>) -> Seq<(Seq<u8>, Seq<Seq<u8>>)>
    decreases lines.len(),
{
    if lines.len() == 0 {
        Seq::empty()
    } else {
        fields::appended(gathered(lines.drop_last()), ascii::lowered(lines.last().0), lines.last().1)
    }
}

/// Whether a field line has a name and a value that a field can have.
pub open spec fn is_field(line: (Seq<u8>, Seq<u8>)) -> bool {
    fields::is_name(line.0) && fields::is_value(line.1)
}

/// What field lines amount to: their fields, or why they are refused.
pub open spec fn owned_fields(lines: Seq<(Seq<u8>, Seq<u8>)>) -> Result<
    Seq<(Seq<u8>, Seq<Seq<u8>>)>,
    HeadError,
> {
    if !fields::fits(lines.len()) {
        Err(HeadError::Limit(HeadLimit::HeaderMap))
    } else if exists|i: int| 0 <= i < lines.len() && !is_field(#[trigger] lines[i]) {
        Err(HeadError::InvalidHeader)
    } else {
        Ok(gathered(lines))
    }
}

/// So many lines that the index of a map may fill up, depending on how their
/// names hash.
pub open spec fn crowded(lines: Seq<(Seq<u8>, Seq<u8>)>) -> bool {
    5 * (lines.len() - 1) >= fields::MAX_SLOTS
}

pub proof fn gathered_len(lines: Seq<(Seq<u8>, Seq<u8>)>)
    ensures
        gathered(lines).len() <= lines.len(),
    decreases lines.len(),
{
    if lines.len() > 0 {
        gathered_len(lines.drop_last());
        fields::appended_len(gathered(lines.drop_last()), ascii::lowered(lines.last().0), lines.last().1);
    }
}

/// Builds the fields of received field lines. A map whose index fills up early
/// refuses the lines as one that is too small from the start.
pub fn own_headers(lines: Vec<RawField>) -> (result: Result<HeaderMap, HeadError>)
    ensures
        match result {
            Ok(map) => owned_fields(wire::field_views(lines@)) == Ok::<_, HeadError>(fields::entries(map)),
            Err(error) => owned_fields(wire::field_views(lines@)) == Err::<
                Seq<(Seq<u8>, Seq<Seq<u8>>)>,
                _,
            >(error) || (crowded(wire::field_views(lines@)) && error == HeadError::Limit(
                HeadLimit::HeaderMap,
            )),
        },
{
    let ghost views = wire::field_views(lines@);
    let mut owned = match fields::with_capacity(lines.len()) {
        Some(map) => map,
        None => return Err(HeadError::Limit(HeadLimit::HeaderMap)),
    };
    let mut index: usize = 0;
    assert(views.take(0) =~= Seq::empty());
    while index < lines.len()
        invariant
            index <= lines.len(),
            views == wire::field_views(lines@),
            fields::fits(lines.len() as nat),
            forall|i: int| 0 <= i < index ==> is_field(#[trigger] views[i]),
            fields::entries(owned) == gathered(views.take(index as int)),
        decreases lines.len() - index,
    {
        let line = &lines[index];
        assert(line@ == views[index as int]);
        let name = match fields::name(line.name.as_slice()) {
            Some(name) => name,
            None => {
                assert(!is_field(views[index as int]));
                return Err(HeadError::InvalidHeader)
            },
        };
        let value = match fields::shared_value(octets::share(&line.value)) {
            Some(value) => value,
            None => {
                assert(!is_field(views[index as int]));
                return Err(HeadError::InvalidHeader)
            },
        };
        proof {
            gathered_len(views.take(index as int));
            assert(views.take(index + 1).drop_last() =~= views.take(index as int));
            assert(views.take(index + 1).last() == views[index as int]);
        }
        if !fields::append(&mut owned, name, value) {
            return Err(HeadError::Limit(HeadLimit::HeaderMap));
        }
        index = index + 1;
    }
    assert(views.take(index as int) =~= views);
    Ok(owned)
}

/// Bounds on a message head.
#[derive(Clone, Copy, Debug, PartialEq, Eq, Structural)]
pub struct HeadLimits {
    pub max_bytes: usize,
    pub max_headers: usize,
}

impl HeadLimits {
    /// Limits of zero would refuse every head.
    pub fn new(max_bytes: usize, max_headers: usize) -> (result: Self)
        requires
            max_bytes > 0,
            max_headers > 0,
        ensures
            result == (HeadLimits { max_bytes, max_headers }),
    {
        HeadLimits { max_bytes, max_headers }
    }
}

/// A request head whose meaning has not been looked at.
#[derive(Debug)]
pub struct RequestHead {
    pub method: Method,
    pub target: Target,
    pub version: Version,
    pub headers: HeaderMap,
}

/// The mathematical content of a request head.
pub struct RequestView {
    pub method: Seq<u8>,
    pub target: TargetParts,
    pub version: Version,
    pub headers: Seq<(Seq<u8>, Seq<Seq<u8>>)>,
}

impl View for RequestHead {
    type V = RequestView;

    open spec fn view(&self) -> RequestView {
        RequestView {
            method: self.method@,
            target: self.target@,
            version: self.version,
            headers: fields::entries(self.headers),
        }
    }
}

/// A response head whose meaning has not been looked at.
#[derive(Debug)]
pub struct ResponseHead {
    pub version: Version,
    pub status: StatusCode,
    pub headers: HeaderMap,
}

/// The mathematical content of a response head.
pub struct ResponseView {
    pub version: Version,
    pub status: u16,
    pub headers: Seq<(Seq<u8>, Seq<Seq<u8>>)>,
}

impl View for ResponseHead {
    type V = ResponseView;

    open spec fn view(&self) -> ResponseView {
        ResponseView {
            version: self.version,
            status: self.status.number(),
            headers: fields::entries(self.headers),
        }
    }
}

/// The parser of request heads.
#[derive(Debug)]
pub struct RequestRole;

/// The parser of response heads.
#[derive(Debug)]
pub struct ResponseRole;

/// Incremental parser over a retained input prefix. After an incomplete scan,
/// the next call must retain the same bytes and append new input. Once
/// `head_len` returns a prefix length, the caller transfers exactly that prefix
/// to `parse_shared`, leaving body or upgraded-protocol bytes untouched.
#[derive(Debug)]
pub struct HeadParser<R> {
    pub limits: HeadLimits,
    pub workspace: HeaderWorkspace,
    pub role: PhantomData<R>,
    pub scan: HeadScan,
}

/// What parsing retained input yields.
#[derive(Debug)]
pub enum ParseOutcome<H> {
    NeedMore,
    Complete { head: H, consumed: usize },
}

/// The bytes of the input that a head may take.
pub open spec fn bounded(input: Seq<u8>, limits: HeadLimits) -> Seq<u8> {
    if input.len() < limits.max_bytes {
        input
    } else {
        input.take(limits.max_bytes as int)
    }
}

/// The length of the head at the start of the input, `None` where it does not
/// end yet.
pub open spec fn bounded_head(input: Seq<u8>, limits: HeadLimits) -> Result<
    Option<nat>,
    HeadError,
> {
    match scan::head_end(bounded(input, limits)) {
        Some(length) => Ok(Some(length)),
        None => if input.len() > limits.max_bytes {
            Err(HeadError::Limit(HeadLimit::Bytes))
        } else {
            Ok(None)
        },
    }
}

pub open spec fn length_view(result: Result<Option<usize>, HeadError>) -> Result<
    Option<nat>,
    HeadError,
> {
    match result {
        Ok(Some(length)) => Ok(Some(length as nat)),
        Ok(None) => Ok(None),
        Err(error) => Err(error),
    }
}

impl<R> HeadParser<R> {
    /// Whether the parser goes with an input: what it has seen is its start.
    pub open spec fn follows(self, input: Seq<u8>) -> bool {
        self.scan.follows(bounded(input, self.limits))
    }

    /// The parser is set up for its limits.
    pub open spec fn wf(self) -> bool {
        self.workspace.slots == self.limits.max_headers
    }

    fn with_limits(limits: HeadLimits) -> (result: Self)
        ensures
            result.wf(),
            result.limits == limits,
            forall|input: Seq<u8>| result.follows(input),
    {
        HeadParser {
            limits,
            workspace: HeaderWorkspace::new(limits.max_headers),
            role: PhantomData,
            scan: HeadScan::new(),
        }
    }

    /// Finds a complete retained head before its storage is handed over. The
    /// same length comes back until that prefix is passed to `parse_shared`.
    pub fn head_len(&mut self, input: &[u8]) -> (result: Result<Option<usize>, HeadError>)
        ensures
            final(self).limits == old(self).limits,
            final(self).workspace == old(self).workspace,
            old(self).follows(input@) ==> length_view(result) == bounded_head(
                input@,
                old(self).limits,
            ),
            old(self).follows(input@) ==> final(self).follows(input@) && forall|more: Seq<u8>|
                final(self).follows(#[trigger] (input@ + more)),
            result is Err ==> forall|next: Seq<u8>| final(self).follows(next),
            result matches Ok(Some(length)) ==> length <= input.len() && length
                <= old(self).limits.max_bytes,
    {
        let parse_len: usize = if input.len() < self.limits.max_bytes {
            input.len()
        } else {
            self.limits.max_bytes
        };
        let ghost known = self.follows(input@);
        let prefix = &input[0..parse_len];
        assert(prefix@ =~= bounded(input@, self.limits));
        let complete = self.scan.complete(prefix);
        proof {
            if known {
                assert forall|more: Seq<u8>| self.follows(#[trigger] (input@ + more)) by {
                    let longer = bounded(input@ + more, self.limits);
                    assert(longer =~= prefix@ + longer.skip(parse_len as int));
                }
            }
        }
        match complete {
            Some(length) => Ok(Some(length)),
            None => {
                if input.len() > self.limits.max_bytes {
                    self.scan = HeadScan::new();
                    Err(HeadError::Limit(HeadLimit::Bytes))
                } else {
                    Ok(None)
                }
            },
        }
    }
}

/// Why a malformed head is refused.
pub open spec fn syntax_refusal(error: SyntaxError) -> HeadError {
    match error {
        SyntaxError::TooManyHeaders => HeadError::Limit(HeadLimit::Headers),
        SyntaxError::HeaderName | SyntaxError::HeaderValue => HeadError::InvalidHeader,
        SyntaxError::Version => HeadError::UnsupportedVersion,
        SyntaxError::NewLine | SyntaxError::Token | SyntaxError::Status => {
            HeadError::InvalidStartLine
        },
    }
}

fn map_syntax_error(error: SyntaxError) -> (result: HeadError)
    ensures
        result == syntax_refusal(error),
{
    match error {
        SyntaxError::TooManyHeaders => HeadError::Limit(HeadLimit::Headers),
        SyntaxError::HeaderName | SyntaxError::HeaderValue => HeadError::InvalidHeader,
        SyntaxError::Version => HeadError::UnsupportedVersion,
        SyntaxError::NewLine | SyntaxError::Token | SyntaxError::Status => {
            HeadError::InvalidStartLine
        },
    }
}

/// The version of a minor version number.
pub open spec fn version_of(minor: u8) -> Option<Version> {
    if minor == 0 {
        Some(Version::Http10)
    } else if minor == 1 {
        Some(Version::Http11)
    } else {
        None
    }
}

pub fn version(minor: u8) -> (result: Result<Version, HeadError>)
    ensures
        match result {
            Ok(version) => version_of(minor) == Some(version),
            Err(error) => version_of(minor) is None && error == HeadError::UnsupportedVersion,
        },
{
    match minor {
        0 => Ok(Version::Http10),
        1 => Ok(Version::Http11),
        _ => Err(HeadError::UnsupportedVersion),
    }
}

/// The head that a received request amounts to.
pub open spec fn built_request(raw: RequestLine) -> Result<RequestView, HeadError> {
    if raw.method is None {
        Err(HeadError::InvalidStartLine)
    } else if !syntax::is_token_text(raw.method->0) {
        Err(HeadError::InvalidMethod)
    } else if raw.path is None {
        Err(HeadError::InvalidStartLine)
    } else if start_line::parsed_target(raw.path->0) is None {
        Err(HeadError::InvalidTarget)
    } else if raw.version is None {
        Err(HeadError::InvalidStartLine)
    } else if version_of(raw.version->0) is None {
        Err(HeadError::UnsupportedVersion)
    } else {
        match owned_fields(raw.fields) {
            Ok(headers) => Ok(
                RequestView {
                    method: raw.method->0,
                    target: start_line::parsed_target(raw.path->0)->0,
                    version: version_of(raw.version->0)->0,
                    headers,
                },
            ),
            Err(error) => Err(error),
        }
    }
}

/// The head that a received response amounts to.
pub open spec fn built_response(raw: StatusLine) -> Result<ResponseView, HeadError> {
    if raw.version is None {
        Err(HeadError::InvalidStartLine)
    } else if version_of(raw.version->0) is None {
        Err(HeadError::UnsupportedVersion)
    } else if raw.code is None {
        Err(HeadError::InvalidStartLine)
    } else if raw.code->0 > 599 || raw.code->0 < 100 {
        Err(HeadError::InvalidStatus)
    } else {
        match owned_fields(raw.fields) {
            Ok(headers) => Ok(
                ResponseView {
                    version: version_of(raw.version->0)->0,
                    status: raw.code->0,
                    headers,
                },
            ),
            Err(error) => Err(error),
        }
    }
}

/// Whether a result is the expected one. A map whose index fills up early may
/// refuse the fields instead.
pub open spec fn is_expected<T: View>(
    result: Result<T, HeadError>,
    expected: Result<T::V, HeadError>,
    crowded: bool,
) -> bool {
    match result {
        Ok(value) => expected == Ok::<T::V, HeadError>(value@),
        Err(error) => expected == Err::<T::V, HeadError>(error) || (crowded && error
            == HeadError::Limit(HeadLimit::HeaderMap)),
    }
}

/// Builds the head of a received request.
pub fn build_request_head(raw: RawRequest) -> (result: Result<RequestHead, HeadError>)
    ensures
        is_expected(result, built_request(raw@), crowded(raw@.fields)),
{
    let method = match raw.method {
        Some(text) => match Method::from_bytes(text.as_slice()) {
            Some(method) => method,
            None => return Err(HeadError::InvalidMethod),
        },
        None => return Err(HeadError::InvalidStartLine),
    };
    let target = match raw.path {
        Some(text) => match Target::from_shared(text) {
            Some(target) => target,
            None => return Err(HeadError::InvalidTarget),
        },
        None => return Err(HeadError::InvalidStartLine),
    };
    let version = match raw.version {
        Some(minor) => match version(minor) {
            Ok(version) => version,
            Err(error) => return Err(error),
        },
        None => return Err(HeadError::InvalidStartLine),
    };
    match own_headers(raw.fields) {
        Ok(headers) => Ok(RequestHead { method, target, version, headers }),
        Err(error) => Err(error),
    }
}

/// Builds the head of a received response.
pub fn build_response_head(raw: RawResponse) -> (result: Result<ResponseHead, HeadError>)
    ensures
        is_expected(result, built_response(raw@), crowded(raw@.fields)),
{
    let version = match raw.version {
        Some(minor) => match version(minor) {
            Ok(version) => version,
            Err(error) => return Err(error),
        },
        None => return Err(HeadError::InvalidStartLine),
    };
    let code = match raw.code {
        Some(code) => code,
        None => return Err(HeadError::InvalidStartLine),
    };
    if code > 599 {
        return Err(HeadError::InvalidStatus);
    }
    let status = match StatusCode::from_u16(code) {
        Some(status) => status,
        None => return Err(HeadError::InvalidStatus),
    };
    match own_headers(raw.fields) {
        Ok(headers) => Ok(ResponseHead { version, status, headers }),
        Err(error) => Err(error),
    }
}

/// What a whole request head amounts to.
pub open spec fn request_head(input: Seq<u8>, limits: HeadLimits) -> Result<
    RequestView,
    HeadError,
> {
    if input.len() > limits.max_bytes {
        Err(HeadError::Limit(HeadLimit::Bytes))
    } else {
        match wire::parsed_request(input, slots_within(limits.max_headers as nat, input.len())) {
            Ok(Some(raw)) => if raw.consumed == input.len() {
                built_request(raw)
            } else {
                Err(HeadError::InvalidStartLine)
            },
            Ok(None) => Err(HeadError::InvalidStartLine),
            Err(error) => Err(syntax_refusal(error)),
        }
    }
}

/// What a whole response head amounts to.
pub open spec fn response_head(input: Seq<u8>, limits: HeadLimits) -> Result<
    ResponseView,
    HeadError,
> {
    if input.len() > limits.max_bytes {
        Err(HeadError::Limit(HeadLimit::Bytes))
    } else {
        match wire::parsed_response(input, slots_within(limits.max_headers as nat, input.len())) {
            Ok(Some(raw)) => if raw.consumed == input.len() {
                built_response(raw)
            } else {
                Err(HeadError::InvalidStartLine)
            },
            Ok(None) => Err(HeadError::InvalidStartLine),
            Err(error) => Err(syntax_refusal(error)),
        }
    }
}

pub open spec fn request_crowded(input: Seq<u8>, limits: HeadLimits) -> bool {
    match wire::parsed_request(input, slots_within(limits.max_headers as nat, input.len())) {
        Ok(Some(raw)) => crowded(raw.fields),
        _ => false,
    }
}

pub open spec fn response_crowded(input: Seq<u8>, limits: HeadLimits) -> bool {
    match wire::parsed_response(input, slots_within(limits.max_headers as nat, input.len())) {
        Ok(Some(raw)) => crowded(raw.fields),
        _ => false,
    }
}

/// Plain field lines that a head of these limits may hold.
pub open spec fn plain_headers(limits: HeadLimits, lines: Seq<(Seq<u8>, Seq<u8>)>) -> bool {
    &&& wire::plain_fields(lines)
    &&& lines.len() <= limits.max_headers
    &&& owned_fields(lines) is Ok
    &&& !crowded(lines)
}

/// The text of a request head.
pub open spec fn request_text(
    method: Seq<u8>,
    target: Seq<u8>,
    minor: u8,
    lines: Seq<(Seq<u8>, Seq<u8>)>,
) -> Seq<u8> {
    wire::request_line(method, target, minor) + wire::field_block(lines) + seq![CR, LF]
}

/// The text of a response head.
pub open spec fn response_text(
    minor: u8,
    code: u16,
    reason: Seq<u8>,
    lines: Seq<(Seq<u8>, Seq<u8>)>,
) -> Seq<u8> {
    wire::status_line(minor, code, reason) + wire::field_block(lines) + seq![CR, LF]
}

/// Whether a result gives the parts of a request head back, where the input is
/// the text of a plain one within its limits.
pub open spec fn gives_request_back(
    limits: HeadLimits,
    input: Seq<u8>,
    result: Result<RequestHead, HeadError>,
) -> bool {
    forall|method: Seq<u8>, target: Seq<u8>, minor: u8, lines: Seq<(Seq<u8>, Seq<u8>)>|
        #![trigger request_text(method, target, minor, lines)]
        wire::plain_request_line(method, target, minor) && plain_headers(limits, lines)
            && start_line::parsed_target(target) is Some && input == request_text(
            method,
            target,
            minor,
            lines,
        ) && input.len() <= limits.max_bytes ==> (result matches Ok(head) && head@ == (RequestView {
            method,
            target: start_line::parsed_target(target)->0,
            version: version_of(minor)->0,
            headers: gathered(lines),
        }))
}

/// Whether a result gives the parts of a response head back, where the input is
/// the text of a plain one within its limits.
pub open spec fn gives_response_back(
    limits: HeadLimits,
    input: Seq<u8>,
    result: Result<ResponseHead, HeadError>,
) -> bool {
    forall|minor: u8, code: u16, reason: Seq<u8>, lines: Seq<(Seq<u8>, Seq<u8>)>|
        #![trigger response_text(minor, code, reason, lines)]
        wire::plain_status_line(minor, code, reason) && code <= 599 && plain_headers(limits, lines)
            && input == response_text(minor, code, reason, lines) && input.len() <= limits.max_bytes
            ==> (result matches Ok(head) && head@ == (ResponseView {
            version: version_of(minor)->0,
            status: code,
            headers: gathered(lines),
        }))
}

impl HeadParser<RequestRole> {
    pub fn request(limits: HeadLimits) -> (result: Self)
        ensures
            result.wf(),
            result.limits == limits,
            forall|input: Seq<u8>| result.follows(input),
    {
        Self::with_limits(limits)
    }

    /// Parses a whole head. The parser is then ready for the next one. The text
    /// of a plain head gives its parts back.
    pub fn parse_shared(&mut self, input: Bytes) -> (result: Result<RequestHead, HeadError>)
        requires
            old(self).wf(),
        ensures
            final(self).wf(),
            final(self).limits == old(self).limits,
            forall|next: Seq<u8>| final(self).follows(next),
            is_expected(
                result,
                request_head(octets::octets(input), old(self).limits),
                request_crowded(octets::octets(input), old(self).limits),
            ),
            gives_request_back(old(self).limits, octets::octets(input), result),
    {
        let bytes = octets::as_slice(&input);
        self.scan = HeadScan::new();
        if bytes.len() > self.limits.max_bytes {
            return Err(HeadError::Limit(HeadLimit::Bytes));
        }
        let slots = self.workspace.slots_for(bytes);
        let length = bytes.len();
        proof {
            assert forall|method: Seq<u8>, target: Seq<u8>, minor: u8, lines: Seq<(Seq<u8>, Seq<u8>)>|
                #![trigger request_text(method, target, minor, lines)]
                bytes@ == request_text(method, target, minor, lines) implies lines.len()
                <= bytes@.len() && wire::request_line(method, target, minor) == wire::request_line(
                method,
                target,
                minor,
            ) by {
                codec_laws::block_is_longer_than_lines(lines);
            }
        }
        match wire::parse_request(&input, slots) {
            Ok(Some(raw)) => {
                if raw.consumed == length {
                    build_request_head(raw)
                } else {
                    Err(HeadError::InvalidStartLine)
                }
            },
            Ok(None) => Err(HeadError::InvalidStartLine),
            Err(error) => Err(map_syntax_error(wire::syntax_error(error))),
        }
    }

    /// Parses the head at the start of retained input.
    pub fn parse(&mut self, input: &[u8]) -> (result: Result<ParseOutcome<RequestHead>, HeadError>)
        requires
            old(self).wf(),
            old(self).follows(input@),
        ensures
            final(self).wf(),
            final(self).limits == old(self).limits,
            result matches Ok(ParseOutcome::NeedMore) ==> forall|more: Seq<u8>|
                final(self).follows(#[trigger] (input@ + more)),
            !(result matches Ok(ParseOutcome::NeedMore)) ==> forall|next: Seq<u8>|
                final(self).follows(next),
            result matches Ok(ParseOutcome::Complete { consumed, .. }) ==> consumed <= input.len(),
            match (bounded_head(input@, old(self).limits), result) {
                (Err(refusal), Err(error)) => error == refusal,
                (Ok(None), Ok(ParseOutcome::NeedMore)) => true,
                (Ok(Some(length)), Ok(ParseOutcome::Complete { head, consumed })) => consumed
                    == length && request_head(input@.take(length as int), old(self).limits) == Ok::<
                    RequestView,
                    HeadError,
                >(head@),
                (Ok(Some(length)), Err(error)) => is_expected::<RequestHead>(
                    Err(error),
                    request_head(input@.take(length as int), old(self).limits),
                    request_crowded(input@.take(length as int), old(self).limits),
                ),
                _ => false,
            },
    {
        match self.head_len(input) {
            Ok(Some(length)) => {
                let prefix = &input[0..length];
                assert(prefix@ =~= input@.take(length as int));
                match self.parse_shared(octets::from_vec(copied(prefix))) {
                    Ok(head) => Ok(ParseOutcome::Complete { head, consumed: length }),
                    Err(error) => Err(error),
                }
            },
            Ok(None) => Ok(ParseOutcome::NeedMore),
            Err(error) => Err(error),
        }
    }
}

impl HeadParser<ResponseRole> {
    pub fn response(limits: HeadLimits) -> (result: Self)
        ensures
            result.wf(),
            result.limits == limits,
            forall|input: Seq<u8>| result.follows(input),
    {
        Self::with_limits(limits)
    }

    /// Parses a whole head. The parser is then ready for the next one. The text
    /// of a plain head gives its parts back.
    pub fn parse_shared(&mut self, input: Bytes) -> (result: Result<ResponseHead, HeadError>)
        requires
            old(self).wf(),
        ensures
            final(self).wf(),
            final(self).limits == old(self).limits,
            forall|next: Seq<u8>| final(self).follows(next),
            is_expected(
                result,
                response_head(octets::octets(input), old(self).limits),
                response_crowded(octets::octets(input), old(self).limits),
            ),
            gives_response_back(old(self).limits, octets::octets(input), result),
    {
        let bytes = octets::as_slice(&input);
        self.scan = HeadScan::new();
        if bytes.len() > self.limits.max_bytes {
            return Err(HeadError::Limit(HeadLimit::Bytes));
        }
        let slots = self.workspace.slots_for(bytes);
        let length = bytes.len();
        proof {
            assert forall|minor: u8, code: u16, reason: Seq<u8>, lines: Seq<(Seq<u8>, Seq<u8>)>|
                #![trigger response_text(minor, code, reason, lines)]
                bytes@ == response_text(minor, code, reason, lines) implies lines.len()
                <= bytes@.len() && wire::status_line(minor, code, reason) == wire::status_line(
                minor,
                code,
                reason,
            ) by {
                codec_laws::block_is_longer_than_lines(lines);
            }
        }
        match wire::parse_response(&input, slots) {
            Ok(Some(raw)) => {
                if raw.consumed == length {
                    build_response_head(raw)
                } else {
                    Err(HeadError::InvalidStartLine)
                }
            },
            Ok(None) => Err(HeadError::InvalidStartLine),
            Err(error) => Err(map_syntax_error(wire::syntax_error(error))),
        }
    }

    /// Parses the head at the start of retained input.
    pub fn parse(&mut self, input: &[u8]) -> (result: Result<
        ParseOutcome<ResponseHead>,
        HeadError,
    >)
        requires
            old(self).wf(),
            old(self).follows(input@),
        ensures
            final(self).wf(),
            final(self).limits == old(self).limits,
            result matches Ok(ParseOutcome::NeedMore) ==> forall|more: Seq<u8>|
                final(self).follows(#[trigger] (input@ + more)),
            !(result matches Ok(ParseOutcome::NeedMore)) ==> forall|next: Seq<u8>|
                final(self).follows(next),
            result matches Ok(ParseOutcome::Complete { consumed, .. }) ==> consumed <= input.len(),
            match (bounded_head(input@, old(self).limits), result) {
                (Err(refusal), Err(error)) => error == refusal,
                (Ok(None), Ok(ParseOutcome::NeedMore)) => true,
                (Ok(Some(length)), Ok(ParseOutcome::Complete { head, consumed })) => consumed
                    == length && response_head(input@.take(length as int), old(self).limits) == Ok::<
                    ResponseView,
                    HeadError,
                >(head@),
                (Ok(Some(length)), Err(error)) => is_expected::<ResponseHead>(
                    Err(error),
                    response_head(input@.take(length as int), old(self).limits),
                    response_crowded(input@.take(length as int), old(self).limits),
                ),
                _ => false,
            },
    {
        match self.head_len(input) {
            Ok(Some(length)) => {
                let prefix = &input[0..length];
                assert(prefix@ =~= input@.take(length as int));
                match self.parse_shared(octets::from_vec(copied(prefix))) {
                    Ok(head) => Ok(ParseOutcome::Complete { head, consumed: length }),
                    Err(error) => Err(error),
                }
            },
            Ok(None) => Ok(ParseOutcome::NeedMore),
            Err(error) => Err(error),
        }
    }
}

} // verus!
