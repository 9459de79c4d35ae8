//! The meaning of message heads.

use crate::ascii::{self, contains, same_ignoring_case, AT, COMMA, SLASH};
use crate::message::{self, Method, Target, TargetParts, Version};
use crate::outside::fields;
use crate::outside::start_line;
use crate::proto::h1::head::{
    self, HeadError, HeadLimit, RequestHead, RequestView, ResponseHead, ResponseView,
};
use crate::proto::h1::syntax::{self, trim_ows};
use crate::proto::h1::values::{
    self, read_connection, read_content_length, read_expectation, read_transfer_encoding,
    read_upgrade, ConnectionOptions, TransferFraming,
};
use crate::proto::h1::{BodyMode, Expectation, Persistence, TargetForm, UpgradeKind};
use http::HeaderMap;
use vstd::prelude::*;

verus! {

/// A request head and what it asks for.
#[derive(Debug)]
pub struct ValidatedRequestHead {
    pub head: RequestHead,
    pub body: BodyMode,
    pub persistence: Persistence,
    pub target_form: TargetForm,
    pub expectation: Expectation,
    pub upgrade: Option<UpgradeKind>,
}

/// The mathematical content of a validated request head.
pub struct RequestMeaning {
    pub head: RequestView,
    pub body: BodyMode,
    pub persistence: Persistence,
    pub target_form: TargetForm,
    pub expectation: Expectation,
    pub upgrade: Option<UpgradeKind>,
}

impl View for ValidatedRequestHead {
    type V = RequestMeaning;

    open spec fn view(&self) -> RequestMeaning {
        RequestMeaning {
            head: self.head@,
            body: self.body,
            persistence: self.persistence,
            target_form: self.target_form,
            expectation: self.expectation,
            upgrade: self.upgrade,
        }
    }
}

/// A response head and what it means as an answer to its request.
#[derive(Debug)]
pub struct ValidatedResponseHead {
    pub upgrade: Option<UpgradeKind>,
    pub head: ResponseHead,
    pub body: BodyMode,
    pub persistence: Persistence,
}

/// The mathematical content of a validated response head.
pub struct ResponseMeaning {
    pub upgrade: Option<UpgradeKind>,
    pub head: ResponseView,
    pub body: BodyMode,
    pub persistence: Persistence,
}

impl View for ValidatedResponseHead {
    type V = ResponseMeaning;

    open spec fn view(&self) -> ResponseMeaning {
        ResponseMeaning {
            upgrade: self.upgrade,
            head: self.head@,
            body: self.body,
            persistence: self.persistence,
        }
    }
}

/// The text `*`.
pub open spec fn asterisk() -> Seq<u8> {
    seq![0x2a]
}

/// The shape of a target, `None` where it has none of the four.
pub open spec fn shape_of(target: TargetParts) -> Option<TargetForm> {
    if target.path == asterisk() && !target.scheme && target.authority is None {
        Some(TargetForm::Asterisk)
    } else if target.scheme && target.authority is Some {
        Some(TargetForm::Absolute)
    } else if !target.scheme && target.authority is Some && !target.path_present {
        Some(TargetForm::Authority)
    } else if !target.scheme && target.authority is None && target.path.len() > 0
        && target.path[0] == SLASH {
        Some(TargetForm::Origin)
    } else {
        None
    }
}

/// The shape of the target of a request, `None` where the method does not go
/// with it: only CONNECT has an authority with a port for a target, and only
/// OPTIONS the asterisk.
pub open spec fn target_form_of(method: Seq<u8>, target: TargetParts) -> Option<TargetForm> {
    match shape_of(target) {
        None => None,
        Some(form) => {
            let fits = if method == message::method_named("CONNECT") {
                form == TargetForm::Authority && (target.authority->0).1
            } else {
                form == TargetForm::Origin || form == TargetForm::Absolute || (form
                    == TargetForm::Asterisk && method == message::method_named("OPTIONS"))
            };
            if fits {
                Some(form)
            } else {
                None
            }
        },
    }
}

/// Determines the shape of a request target.
pub fn validate_request_target(method: &Method, target: &Target) -> (result: Result<
    TargetForm,
    HeadError,
>)
    ensures
        match result {
            Ok(form) => target_form_of(method@, target@) == Some(form),
            Err(error) => target_form_of(method@, target@) is None && error
                == HeadError::InvalidTargetForm,
        },
{
    let path = target.path.as_slice();
    let starred = path.len() == 1 && path[0] == 0x2a;
    assert(starred == (target@.path == asterisk())) by {
        if starred {
            assert(target@.path =~= asterisk());
        }
    }
    let (with_authority, with_port) = match &target.authority {
        Some(authority) => (true, authority.port),
        None => (false, false),
    };
    let form = if starred && !target.scheme && !with_authority {
        TargetForm::Asterisk
    } else if target.scheme && with_authority {
        TargetForm::Absolute
    } else if !target.scheme && with_authority && !target.path_present {
        TargetForm::Authority
    } else if !target.scheme && !with_authority && path.len() > 0 && path[0] == SLASH {
        TargetForm::Origin
    } else {
        return Err(HeadError::InvalidTargetForm);
    };
    let fits = if method.is("CONNECT") {
        match form {
            TargetForm::Authority => with_port,
            _ => false,
        }
    } else {
        match form {
            TargetForm::Origin | TargetForm::Absolute => true,
            TargetForm::Asterisk => method.is("OPTIONS"),
            TargetForm::Authority => false,
        }
    };
    if fits {
        Ok(form)
    } else {
        Err(HeadError::InvalidTargetForm)
    }
}

/// Why the host fields of a message are refused, if they are.
pub open spec fn host_refusal(values: Seq<Seq<u8>>, version: Version) -> Option<HeadError> {
    if values.len() == 0 {
        if version == Version::Http11 {
            Some(HeadError::MissingHost)
        } else {
            None
        }
    } else if values.len() > 1 {
        Some(HeadError::InvalidHost)
    } else {
        let host = syntax::trimmed(values[0]);
        if host.len() == 0 || host.contains(COMMA) || host.contains(AT) || !start_line::is_authority(host) {
            Some(HeadError::InvalidHost)
        } else {
            None
        }
    }
}

/// Checks that a message names one host, as its version asks for.
pub fn validate_host(headers: &HeaderMap, version: Version) -> (result: Result<(), HeadError>)
    ensures
        match result {
            Ok(()) => host_refusal(fields::values_of(fields::entries(*headers), fields::named("host")), version) is None,
            Err(error) => host_refusal(fields::values_of(fields::entries(*headers), fields::named("host")), version)
                == Some(error),
        },
{
    let values = fields::values(headers, "host");
    let ghost listed = fields::values_of(fields::entries(*headers), fields::named("host"));
    assert(listed.len() == values@.len());
    if values.len() == 0 {
        return match version {
            Version::Http11 => Err(HeadError::MissingHost),
            _ => Ok(()),
        };
    }
    if values.len() > 1 {
        return Err(HeadError::InvalidHost);
    }
    assert(listed[0] == values@[0]@);
    let host = trim_ows(values[0]);
    if host.len() == 0 || contains(host, COMMA) || contains(host, AT) || !start_line::authority(
        host,
    ) {
        return Err(HeadError::InvalidHost);
    }
    Ok(())
}

/// The fields with the authority of an absolute target for a host.
pub open spec fn with_target_host(
    headers: Seq<(Seq<u8>, Seq<Seq<u8>>)>,
    target: TargetParts,
) -> Result<Seq<(Seq<u8>, Seq<Seq<u8>>)>, HeadError> {
    match target.authority {
        None => Err(HeadError::InvalidTargetForm),
        Some((authority, _)) => if authority.contains(AT) {
            Err(HeadError::InvalidTarget)
        } else if !fields::is_value(authority) {
            Err(HeadError::InvalidHost)
        } else {
            Ok(fields::inserted(headers, fields::named("host"), authority))
        },
    }
}

/// Puts the authority of an absolute target in place of the host fields. A map
/// whose index fills up early refuses it as one that is too small.
pub fn normalize_absolute_host(headers: &mut HeaderMap, target: &Target) -> (result: Result<
    (),
    HeadError,
>)
    ensures
        match result {
            Ok(()) => with_target_host(fields::entries(*old(headers)), target@) == Ok::<_, HeadError>(
                fields::entries(*final(headers)),
            ),
            Err(error) => with_target_host(fields::entries(*old(headers)), target@) == Err::<
                Seq<(Seq<u8>, Seq<Seq<u8>>)>,
                HeadError,
            >(error) || (!fields::roomy(fields::entries(*old(headers))) && error == HeadError::Limit(
                HeadLimit::HeaderMap,
            )),
        },
{
    let authority = match &target.authority {
        Some(authority) => authority.text.as_slice(),
        None => return Err(HeadError::InvalidTargetForm),
    };
    if contains(authority, AT) {
        return Err(HeadError::InvalidTarget);
    }
    let value = match fields::value(authority) {
        Some(value) => value,
        None => return Err(HeadError::InvalidHost),
    };
    if fields::insert(headers, fields::host(), value) {
        Ok(())
    } else {
        Err(HeadError::Limit(HeadLimit::HeaderMap))
    }
}

/// Whether the connection lasts: as long as nobody closes it, and before HTTP/1.1
/// only where somebody asks for it.
pub open spec fn persistence_of(version: Version, options: ConnectionOptions) -> Persistence {
    if options.close || (version == Version::Http10 && !options.keep_alive) {
        Persistence::Close
    } else {
        Persistence::Reusable
    }
}

pub fn persistence(version: Version, options: ConnectionOptions) -> (result: Persistence)
    ensures
        result == persistence_of(version, options),
{
    if options.close || (version == Version::Http10 && !options.keep_alive) {
        Persistence::Close
    } else {
        Persistence::Reusable
    }
}

/// What a request expects. An expectation of an HTTP/1.0 client is ignored by its
/// receiver and refused to its sender.
pub open spec fn expectation_of(values: Seq<Seq<u8>>, version: Version, received: bool) -> Result<
    Expectation,
    HeadError,
> {
    match values::expects_continue(values) {
        Err(error) => Err(error),
        Ok(asked) => if !asked {
            Ok(Expectation::Absent)
        } else if version == Version::Http11 {
            Ok(Expectation::Continue)
        } else if version == Version::Http10 && received {
            Ok(Expectation::Absent)
        } else {
            Err(HeadError::InvalidExpectation)
        },
    }
}

pub fn expectation(headers: &HeaderMap, version: Version, received: bool) -> (result: Result<
    Expectation,
    HeadError,
>)
    ensures
        result == expectation_of(
            fields::values_of(fields::entries(*headers), fields::named("expect")),
            version,
            received,
        ),
{
    match read_expectation(&fields::values(headers, "expect")) {
        Err(error) => Err(error),
        Ok(asked) => {
            if !asked {
                return Ok(Expectation::Absent);
            }
            match version {
                Version::Http11 => Ok(Expectation::Continue),
                Version::Http10 if received => Ok(Expectation::Absent),
                _ => Err(HeadError::InvalidExpectation),
            }
        },
    }
}

/// What a request asks the connection to turn into. A protocol is named by both
/// the connection and the upgrade fields, and by neither or the request is
/// refused.
pub open spec fn upgrade_of(
    values: Seq<Seq<u8>>,
    connection: ConnectionOptions,
    form: TargetForm,
) -> Result<Option<UpgradeKind>, HeadError> {
    if form == TargetForm::Authority {
        Ok(Some(UpgradeKind::Tunnel))
    } else {
        match values::names_protocol(values) {
            Err(error) => Err(error),
            Ok(named) => if connection.upgrade && !connection.close && named {
                Ok(Some(UpgradeKind::Protocol))
            } else if !connection.upgrade && !named {
                Ok(None)
            } else {
                Err(HeadError::InvalidUpgrade)
            },
        }
    }
}

pub fn upgrade_intent(
    headers: &HeaderMap,
    connection: ConnectionOptions,
    form: TargetForm,
) -> (result: Result<Option<UpgradeKind>, HeadError>)
    ensures
        result == upgrade_of(
            fields::values_of(fields::entries(*headers), fields::named("upgrade")),
            connection,
            form,
        ),
{
    if form == TargetForm::Authority {
        return Ok(Some(UpgradeKind::Tunnel));
    }
    let named = match read_upgrade(&fields::values(headers, "upgrade")) {
        Ok(named) => named,
        Err(error) => return Err(error),
    };
    if connection.upgrade && !connection.close && named {
        Ok(Some(UpgradeKind::Protocol))
    } else if !connection.upgrade && !named {
        Ok(None)
    } else {
        Err(HeadError::InvalidUpgrade)
    }
}

/// How the framing fields frame a body, `None` where there are none.
pub open spec fn framing_of(
    headers: Seq<(Seq<u8>, Seq<Seq<u8>>)>,
    version: Version,
) -> Result<Option<BodyMode>, HeadError> {
    match values::content_length(fields::values_of(headers, fields::named("content-length"))) {
        Err(error) => Err(error),
        Ok(length) => match values::transfer_encoding(
            fields::values_of(headers, fields::named("transfer-encoding")),
        ) {
            Err(error) => Err(error),
            Ok(framing) => if length is Some && framing is Some {
                Err(HeadError::AmbiguousMessageLength)
            } else if framing is Some {
                if version == Version::Http11 {
                    Ok(Some(BodyMode::Chunked))
                } else {
                    Err(HeadError::InvalidTransferEncoding)
                }
            } else if length is Some {
                Ok(Some(BodyMode::Fixed(length->0)))
            } else {
                Ok(None)
            },
        },
    }
}

/// The length that the content length fields state.
pub fn parse_content_length(headers: &HeaderMap) -> (result: Result<Option<u64>, HeadError>)
    ensures
        result == values::content_length(
            fields::values_of(fields::entries(*headers), fields::named("content-length")),
        ),
{
    read_content_length(&fields::values(headers, "content-length"))
}

/// How the transfer encoding fields frame a body.
pub fn parse_transfer_encoding(headers: &HeaderMap) -> (result: Result<
    Option<TransferFraming>,
    HeadError,
>)
    ensures
        result == values::transfer_encoding(
            fields::values_of(fields::entries(*headers), fields::named("transfer-encoding")),
        ),
{
    read_transfer_encoding(&fields::values(headers, "transfer-encoding"))
}

/// What the connection fields ask for.
pub fn connection_options(headers: &HeaderMap) -> (result: Result<ConnectionOptions, HeadError>)
    ensures
        result == values::connection_of(
            fields::values_of(fields::entries(*headers), fields::named("connection")),
        ),
{
    read_connection(&fields::values(headers, "connection"))
}

fn framing(headers: &HeaderMap, version: Version) -> (result: Result<Option<BodyMode>, HeadError>)
    ensures
        result == framing_of(fields::entries(*headers), version),
{
    let length = match parse_content_length(headers) {
        Ok(length) => length,
        Err(error) => return Err(error),
    };
    let framing = match parse_transfer_encoding(headers) {
        Ok(framing) => framing,
        Err(error) => return Err(error),
    };
    match (framing, length) {
        (Some(_), Some(_)) => Err(HeadError::AmbiguousMessageLength),
        (Some(TransferFraming::Chunked), None) => match version {
            Version::Http11 => Ok(Some(BodyMode::Chunked)),
            _ => Err(HeadError::InvalidTransferEncoding),
        },
        (None, Some(length)) => Ok(Some(BodyMode::Fixed(length))),
        (None, None) => Ok(None),
    }
}

/// What a request head asks for, with the host of an absolute target in place.
pub open spec fn request_meaning(head: RequestView, received: bool) -> Result<
    RequestMeaning,
    HeadError,
> {
    match target_form_of(head.method, head.target) {
        None => Err(HeadError::InvalidTargetForm),
        Some(form) => match host_refusal(
            fields::values_of(head.headers, fields::named("host")),
            head.version,
        ) {
            Some(error) => Err(error),
            None => match if form == TargetForm::Absolute {
                with_target_host(head.headers, head.target)
            } else {
                Ok(head.headers)
            } {
                Err(error) => Err(error),
                Ok(headers) => request_asks(RequestView { headers, ..head }, form, received),
            },
        },
    }
}

/// What the fields of a request ask for.
pub open spec fn request_asks(head: RequestView, form: TargetForm, received: bool) -> Result<
    RequestMeaning,
    HeadError,
> {
    match framing_of(head.headers, head.version) {
        Err(error) => Err(error),
        Ok(framing) => match values::connection_of(
            fields::values_of(head.headers, fields::named("connection")),
        ) {
            Err(error) => Err(error),
            Ok(connection) => match expectation_of(
                fields::values_of(head.headers, fields::named("expect")),
                head.version,
                received,
            ) {
                Err(error) => Err(error),
                Ok(expectation) => match request_upgrade(head, connection, form, received) {
                    Err(error) => Err(error),
                    Ok(upgrade) => Ok(
                        RequestMeaning {
                            head,
                            body: match framing {
                                Some(mode) => mode,
                                None => BodyMode::Empty,
                            },
                            persistence: persistence_of(head.version, connection),
                            target_form: form,
                            expectation,
                            upgrade,
                        },
                    ),
                },
            },
        },
    }
}

/// What a request asks the connection to turn into. A receiver ignores the
/// upgrade fields of an HTTP/1.0 request; a tunnel is independent of them.
pub open spec fn request_upgrade(
    head: RequestView,
    connection: ConnectionOptions,
    form: TargetForm,
    received: bool,
) -> Result<Option<UpgradeKind>, HeadError> {
    if received && head.version == Version::Http10 && form != TargetForm::Authority {
        Ok(None)
    } else {
        match upgrade_of(
            fields::values_of(head.headers, fields::named("upgrade")),
            connection,
            form,
        ) {
            Err(error) => Err(error),
            Ok(upgrade) => if upgrade == Some(UpgradeKind::Protocol) && head.version
                != Version::Http11 {
                Err(HeadError::InvalidUpgrade)
            } else {
                Ok(upgrade)
            },
        }
    }
}

/// A request that may be sent means the same to its receiver, and the two differ
/// over no request of HTTP/1.1: a receiver is more lenient only with what an older
/// client may not ask for.
pub proof fn receiver_agrees_with_sender(head: RequestView)
    ensures
        request_meaning(head, false) is Ok ==> request_meaning(head, true) == request_meaning(
            head,
            false,
        ),
        head.version == Version::Http11 ==> request_meaning(head, true) == request_meaning(
            head,
            false,
        ),
{
}

impl RequestHead {
    /// Determines what a request that is to be sent asks for.
    pub fn validate(self) -> (result: Result<ValidatedRequestHead, HeadError>)
        ensures
            head::is_expected(
                result,
                request_meaning(self@, false),
                !fields::roomy(self@.headers),
            ),
    {
        self.validate_for(false)
    }

    /// Determines what a received request asks for. What a receiver ignores is
    /// no reason to refuse it, though it may not be sent.
    pub fn validate_received(self) -> (result: Result<ValidatedRequestHead, HeadError>)
        ensures
            head::is_expected(
                result,
                request_meaning(self@, true),
                !fields::roomy(self@.headers),
            ),
    {
        self.validate_for(true)
    }

    fn validate_for(self, received: bool) -> (result: Result<ValidatedRequestHead, HeadError>)
        ensures
            head::is_expected(
                result,
                request_meaning(self@, received),
                !fields::roomy(self@.headers),
            ),
    {
        let ghost start = self@;
        let target_form = match validate_request_target(&self.method, &self.target) {
            Ok(form) => form,
            Err(error) => return Err(error),
        };
        if let Err(error) = validate_host(&self.headers, self.version) {
            return Err(error);
        }
        let RequestHead { method, target, version, mut headers } = self;
        if target_form == TargetForm::Absolute {
            if let Err(error) = normalize_absolute_host(&mut headers, &target) {
                return Err(error);
            }
        }
        let head = RequestHead { method, target, version, headers };
        assert(head@ == (RequestView { headers: head@.headers, ..start }));
        let mode = match framing(&head.headers, head.version) {
            Ok(mode) => mode,
            Err(error) => return Err(error),
        };
        let connection = match connection_options(&head.headers) {
            Ok(connection) => connection,
            Err(error) => return Err(error),
        };
        let expectation = match expectation(&head.headers, head.version, received) {
            Ok(expectation) => expectation,
            Err(error) => return Err(error),
        };
        let ignored = received && head.version == Version::Http10 && target_form
            != TargetForm::Authority;
        let upgrade = if ignored {
            None
        } else {
            match upgrade_intent(&head.headers, connection, target_form) {
                Ok(upgrade) => upgrade,
                Err(error) => return Err(error),
            }
        };
        if let Some(UpgradeKind::Protocol) = upgrade {
            if head.version != Version::Http11 {
                return Err(HeadError::InvalidUpgrade);
            }
        }
        let body = match mode {
            Some(mode) => mode,
            None => BodyMode::Empty,
        };
        let persistence = persistence(head.version, connection);
        Ok(
            ValidatedRequestHead {
                head,
                body,
                persistence,
                target_form,
                expectation,
                upgrade,
            },
        )
    }
}

/// What a response turns the connection into.
pub open spec fn response_upgrade(
    head: ResponseView,
    connection: ConnectionOptions,
    method: Seq<u8>,
) -> Result<Option<UpgradeKind>, HeadError> {
    if head.status == 101 {
        if head.version == Version::Http11 && connection.upgrade && !connection.close {
            match values::names_protocol(
                fields::values_of(head.headers, fields::named("upgrade")),
            ) {
                Err(error) => Err(error),
                Ok(named) => if named {
                    Ok(Some(UpgradeKind::Protocol))
                } else {
                    Err(HeadError::InvalidUpgrade)
                },
            }
        } else {
            Err(HeadError::InvalidUpgrade)
        }
    } else if method == message::method_named("CONNECT") && 200 <= head.status < 300 {
        Ok(Some(UpgradeKind::Tunnel))
    } else {
        Ok(None)
    }
}

/// Whether a response has no body whatever its framing fields say.
pub open spec fn bodiless(status: u16, method: Seq<u8>) -> bool {
    method == message::method_named("HEAD") || 100 <= status < 200 || status == 204 || status == 304
}

/// What a response head means as an answer to a request of this method.
pub open spec fn response_meaning(head: ResponseView, method: Seq<u8>) -> Result<
    ResponseMeaning,
    HeadError,
> {
    if head.status > 599 {
        Err(HeadError::InvalidStatus)
    } else {
        match values::connection_of(
            fields::values_of(head.headers, fields::named("connection")),
        ) {
            Err(error) => Err(error),
            Ok(connection) => match response_upgrade(head, connection, method) {
                Err(error) => Err(error),
                Ok(upgrade) => match if upgrade is Some || bodiless(head.status, method) {
                    Ok(Some(BodyMode::Empty))
                } else {
                    framing_of(head.headers, head.version)
                } {
                    Err(error) => Err(error),
                    Ok(Some(body)) => Ok(
                        ResponseMeaning {
                            upgrade,
                            head,
                            body,
                            persistence: persistence_of(head.version, connection),
                        },
                    ),
                    Ok(None) => Ok(
                        ResponseMeaning {
                            upgrade,
                            head,
                            body: BodyMode::UntilEof,
                            persistence: Persistence::Close,
                        },
                    ),
                },
            },
        }
    }
}

/// The result of validation as mathematical content.
pub open spec fn response_view(result: Result<ValidatedResponseHead, HeadError>) -> Result<
    ResponseMeaning,
    HeadError,
> {
    match result {
        Ok(head) => Ok(head@),
        Err(error) => Err(error),
    }
}

impl ResponseHead {
    /// Determines what a response means as an answer to a request of this
    /// method.
    pub fn validate(self, request_method: &Method) -> (result: Result<
        ValidatedResponseHead,
        HeadError,
    >)
        ensures
            response_view(result) == response_meaning(self@, request_method@),
    {
        if self.status.as_u16() > 599 {
            return Err(HeadError::InvalidStatus);
        }
        let connection = match connection_options(&self.headers) {
            Ok(connection) => connection,
            Err(error) => return Err(error),
        };
        let upgrade = if self.status.as_u16() == 101 {
            if self.version != Version::Http11 || !connection.upgrade || connection.close {
                return Err(HeadError::InvalidUpgrade);
            }
            match read_upgrade(&fields::values(&self.headers, "upgrade")) {
                Ok(named) => {
                    if !named {
                        return Err(HeadError::InvalidUpgrade);
                    }
                },
                Err(error) => return Err(error),
            }
            Some(UpgradeKind::Protocol)
        } else if request_method.is("CONNECT") && self.status.is_success() {
            Some(UpgradeKind::Tunnel)
        } else {
            None
        };
        let bodiless = request_method.is("HEAD") || self.status.is_informational()
            || self.status.as_u16() == 204 || self.status.as_u16() == 304;
        let mode = if upgrade.is_some() || bodiless {
            Some(BodyMode::Empty)
        } else {
            match framing(&self.headers, self.version) {
                Ok(mode) => mode,
                Err(error) => return Err(error),
            }
        };
        match mode {
            Some(body) => {
                let persistence = persistence(self.version, connection);
                Ok(ValidatedResponseHead { upgrade, head: self, body, persistence })
            },
            None => Ok(
                ValidatedResponseHead {
                    upgrade,
                    head: self,
                    body: BodyMode::UntilEof,
                    persistence: Persistence::Close,
                },
            ),
        }
    }
}

/// The pieces between the commas of a value, without the whitespace around them.
pub open spec fn pieces(value: Seq<u8>) -> Seq<Seq<u8>>
    decreases value.len(),
{
    let split = ascii::position(value, COMMA);
    if split >= value.len() {
        seq![syntax::trimmed(value)]
    } else {
        seq![syntax::trimmed(value.take(split as int))] + pieces(value.skip(split as int + 1))
    }
}

/// The pieces of several values.
pub open spec fn all_pieces(values: Seq<Seq<u8>>) -> Seq<Seq<u8>>
    decreases values.len(),
{
    if values.len() == 0 {
        Seq::empty()
    } else {
        pieces(values[0]) + all_pieces(values.skip(1))
    }
}

/// Whether a protocol is among those offered, in any case of its letters.
pub open spec fn is_offered(offered: Seq<Seq<u8>>, protocol: Seq<u8>) -> bool {
    exists|i: int|
        0 <= i < offered.len() && ascii::lowered(#[trigger] offered[i]) == ascii::lowered(protocol)
}

/// Whether protocols are selected, and every one of them was offered.
pub open spec fn protocols_match(offered: Seq<Seq<u8>>, selected: Seq<Seq<u8>>) -> bool {
    let offered = all_pieces(offered);
    let selected = all_pieces(selected);
    &&& selected.len() > 0
    &&& forall|i: int|
        0 <= i < selected.len() ==> (#[trigger] selected[i]).len() > 0 && is_offered(
            offered,
            selected[i],
        )
}

fn add_pieces<'a>(value: &'a [u8], found: &mut Vec<&'a [u8]>)
    ensures
        fields::views(final(found)@) == fields::views(old(found)@) + pieces(value@),
{
    let mut rest = value;
    let ghost before = fields::views(found@);
    loop
        invariant
            before == fields::views(old(found)@),
            fields::views(found@) + pieces(rest@) == before + pieces(value@),
        decreases rest.len(),
    {
        let split = ascii::find(rest, COMMA);
        let ghost held = found@;
        let ghost from = rest@;
        let piece = trim_ows(&rest[0..split]);
        assert(rest@.subrange(0, split as int) =~= rest@.take(split as int));
        found.push(piece);
        assert(fields::views(found@) =~= fields::views(held).push(piece@));
        if split == rest.len() {
            proof {
                assert(rest@.take(split as int) =~= rest@);
                assert(fields::views(found@) =~= fields::views(held) + pieces(from));
            }
            return ;
        }
        let later = &rest[split + 1..rest.len()];
        proof {
            assert(later@ =~= from.skip(split + 1));
            assert(fields::views(found@) + pieces(later@) =~= fields::views(held) + pieces(from));
        }
        rest = later;
    }
}

fn split_pieces<'a>(values: &Vec<&'a [u8]>) -> (result: Vec<&'a [u8]>)
    ensures
        fields::views(result@) == all_pieces(fields::views(values@)),
{
    let mut found: Vec<&'a [u8]> = Vec::new();
    let ghost all = fields::views(values@);
    let mut index: usize = 0;
    assert(all.skip(0) =~= all);
    assert(fields::views(found@) + all_pieces(all) =~= all_pieces(all));
    while index < values.len()
        invariant
            index <= values.len(),
            all == fields::views(values@),
            fields::views(found@) + all_pieces(all.skip(index as int)) == all_pieces(all),
        decreases values.len() - index,
    {
        let ghost held = fields::views(found@);
        let ghost rest = all.skip(index as int);
        add_pieces(values[index], &mut found);
        proof {
            assert(rest[0] == values@[index as int]@);
            assert(rest.skip(1) =~= all.skip(index + 1));
            assert((held + pieces(rest[0])) + all_pieces(rest.skip(1)) =~= held + (pieces(rest[0])
                + all_pieces(rest.skip(1))));
        }
        index = index + 1;
    }
    assert(all.skip(index as int) =~= Seq::empty());
    assert(fields::views(found@) + Seq::<Seq<u8>>::empty() =~= fields::views(found@));
    found
}

fn offers(offered: &Vec<&[u8]>, protocol: &[u8]) -> (result: bool)
    ensures
        result == is_offered(fields::views(offered@), protocol@),
{
    let ghost all = fields::views(offered@);
    for index in 0..offered.len()
        invariant
            all == fields::views(offered@),
            forall|i: int|
                0 <= i < index ==> ascii::lowered(#[trigger] all[i]) != ascii::lowered(protocol@),
    {
        assert(all[index as int] == offered@[index as int]@);
        if same_ignoring_case(offered[index], protocol) {
            return true;
        }
    }
    false
}

/// Whether a response selects protocols, and only such as were offered.
pub fn upgrade_protocols_match(offered: &Vec<&[u8]>, selected: &HeaderMap) -> (result: bool)
    ensures
        result == protocols_match(
            fields::views(offered@),
            fields::values_of(fields::entries(*selected), fields::named("upgrade")),
        ),
{
    let choices = split_pieces(offered);
    let chosen = split_pieces(&fields::values(selected, "upgrade"));
    let ghost all = fields::views(chosen@);
    assert(all.len() == chosen@.len());
    for index in 0..chosen.len()
        invariant
            all == fields::views(chosen@),
            all == all_pieces(
                fields::values_of(fields::entries(*selected), fields::named("upgrade")),
            ),
            fields::views(choices@) == all_pieces(fields::views(offered@)),
            forall|i: int|
                0 <= i < index ==> (#[trigger] all[i]).len() > 0 && is_offered(
                    fields::views(choices@),
                    all[i],
                ),
    {
        assert(all[index as int] == chosen@[index as int]@);
        if chosen[index].len() == 0 || !offers(&choices, chosen[index]) {
            return false;
        }
    }
    chosen.len() > 0
}

} // verus!
