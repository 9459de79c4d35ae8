//! What a server connection decides.

use crate::body::pipe::DemandError;
use crate::body::size_hint::SizeHint;
use crate::body::TrailerHint;
use crate::error::{self, Error, ErrorKind, Payload, Source};
use crate::io::recv::{ReadStatus, RecvBuffer};
use crate::message::{Method, StatusCode, Version};
use crate::outside::date::{self, END_OF_DATES};
use crate::outside::fields;
use crate::outside::octets;
use crate::proto::h1::bridge::{self, BodyReceiver, ReceiveAction, ReceiveEnd, Told};
use crate::proto::h1::encode::{
    self, encode_response_head_with_memory, prepare_response_head_with_memory, BodyEncoder,
    BodyMetadata, EncodeConfig, Memory,
    EncodeError, EncodedHead,
};
use crate::proto::h1::exchange::{
    self, Direction, Exchange, ExchangeView, HeadAction, Outcome,
};
use crate::proto::h1::head::{
    self, HeadError, HeadParser, ParseOutcome, RequestRole, ResponseView,
};
use crate::proto::h1::validate::{self, ResponseMeaning, ValidatedRequestHead};
use crate::proto::h1::{BodyMode, Expectation, UpgradeKind};
use http::{HeaderMap, HeaderValue};
use std::rc::Rc;
use vstd::prelude::*;

verus! {

/// What awaiting a request does next.
#[derive(Debug)]
pub enum HeadStep {
    /// Read more input.
    Read,
    /// Serve the request.
    Serve(ValidatedRequestHead),
}

/// The error of a head whose fields fill up the index of their map.
pub open spec fn crowded_head() -> Error {
    error::head_failure(HeadError::Limit(head::HeadLimit::HeaderMap))
}

/// Whether a result is what a whole request head at the start of the input leads
/// to, and what is then left of the input. A head that cannot be read stays; one
/// that was read is gone, whether it is understood or not. Fields may fill up the
/// index of their map in either case.
pub open spec fn concludes(
    result: Result<HeadStep, Error>,
    input: Seq<u8>,
    length: nat,
    limits: head::HeadLimits,
    left: Seq<u8>,
) -> bool {
    let text = input.take(length as int);
    let rest = input.skip(length as int);
    ||| match head::request_head(text, limits) {
        Ok(read) => left == rest && (match validate::request_meaning(read, true) {
            Ok(meaning) => result matches Ok(HeadStep::Serve(head)) && head@ == meaning,
            Err(refusal) => result == Err::<HeadStep, Error>(error::head_failure(refusal)),
        }),
        Err(refusal) => left == input && result == Err::<HeadStep, Error>(
            error::head_failure(refusal),
        ),
    }
    ||| head::request_crowded(text, limits) && left == input && result == Err::<HeadStep, Error>(
        crowded_head(),
    )
    ||| head::request_head(text, limits) matches Ok(read) && !fields::roomy(read.headers) && left
        == rest && result == Err::<HeadStep, Error>(crowded_head())
}

/// Looks for a request head in the input, and takes it as a recipient does: what
/// an HTTP/1.0 client may not ask for is ignored. A deadline that has passed comes
/// before anything that the input holds.
pub fn await_head(
    parser: &mut HeadParser<RequestRole>,
    buffer: &mut RecvBuffer,
    expired: bool,
) -> (result: Result<HeadStep, Error>)
    requires
        old(parser).wf(),
        old(parser).follows(old(buffer)@),
        old(buffer).wf(),
    ensures
        final(parser).wf(),
        final(parser).limits == old(parser).limits,
        final(buffer).wf(),
        final(buffer).same_limits(*old(buffer)),
        if expired {
            result == Err::<HeadStep, Error>(
                exchange::plain_error(ErrorKind::Timeout, "HTTP head deadline exceeded"),
            ) && *final(buffer) == *old(buffer)
        } else {
            match head::bounded_head(old(buffer)@, old(parser).limits) {
                Err(refusal) => result == Err::<HeadStep, Error>(error::head_failure(refusal))
                    && *final(buffer) == *old(buffer),
                Ok(None) => {
                    &&& result matches Ok(HeadStep::Read)
                    &&& *final(buffer) == *old(buffer)
                    &&& forall|more: Seq<u8>|
                        final(parser).follows(#[trigger] (old(buffer)@ + more))
                },
                Ok(Some(length)) => {
                    &&& concludes(
                        result,
                        old(buffer)@,
                        length as nat,
                        old(parser).limits,
                        final(buffer)@,
                    )
                    &&& forall|next: Seq<u8>| final(parser).follows(next)
                },
            }
        },
{
    if expired {
        return Err(Error::new(ErrorKind::Timeout, "HTTP head deadline exceeded"));
    }
    let ghost input = buffer@;
    match parser.parse(buffer.bytes()) {
        Err(refusal) => Err(Error::from(refusal)),
        Ok(ParseOutcome::NeedMore) => Ok(HeadStep::Read),
        Ok(ParseOutcome::Complete { head, consumed }) => {
            match buffer.consume(consumed) {
                Ok(()) => {},
                Err(error) => return Err(error),
            }
            assert(input.subrange(consumed as int, input.len() as int) =~= input.skip(
                consumed as int,
            ));
            match head.validate_received() {
                Ok(head) => Ok(HeadStep::Serve(head)),
                Err(refusal) => Err(Error::from(refusal)),
            }
        },
    }
}

/// What a connection does after a read for a request head.
#[derive(Clone, Copy, Debug, PartialEq, Eq, Structural)]
pub enum Idle {
    /// Look at the input.
    Look,
    /// Shut the transport down.
    Shutdown,
}

/// Goes on once a read for a request head has completed: `empty` says whether no
/// input is left.
pub fn head_read(result: Result<ReadStatus, Error>, empty: bool) -> (read: Result<Idle, Error>)
    ensures
        read == (match result {
            Err(error) => Err(error),
            Ok(ReadStatus::Data(_)) => Ok(Idle::Look),
            Ok(ReadStatus::Eof) => if empty {
                Ok(Idle::Shutdown)
            } else {
                Err(
                    exchange::plain_error(
                        ErrorKind::InvalidMessage,
                        "connection ended inside a request head",
                    ),
                )
            },
        }),
{
    match result {
        Err(error) => Err(error),
        Ok(ReadStatus::Data(_)) => Ok(Idle::Look),
        Ok(ReadStatus::Eof) => if empty {
            Ok(Idle::Shutdown)
        } else {
            Err(Error::new(ErrorKind::InvalidMessage, "connection ended inside a request head"))
        },
    }
}

/// Goes on once an idle read was canceled because the connection stops: a read
/// that failed otherwise is still reported.
pub fn idle_read_stopped(result: Result<ReadStatus, Error>) -> (stopped: Result<Idle, Error>)
    ensures
        stopped == (match result {
            Err(error) => if error.kind == ErrorKind::Canceled {
                Ok(Idle::Shutdown)
            } else {
                Err(error)
            },
            Ok(_) => Ok(Idle::Shutdown),
        }),
{
    match result {
        Err(error) => if error.is_canceled() {
            Ok(Idle::Shutdown)
        } else {
            Err(error)
        },
        Ok(_) => Ok(Idle::Shutdown),
    }
}

/// Whether receiving the request body first awaits that the body is asked for,
/// and then permission to tell the client to send it.
pub fn awaits_permission(head: &ValidatedRequestHead) -> (result: bool)
    ensures
        result == (head@.expectation == Expectation::Continue && head@.head.version
            == Version::Http11),
{
    head.expectation == Expectation::Continue && head.head.version == Version::Http11
}

/// Goes on once the body of a request was asked for whose client waits: no
/// action means that the client is to be told to send it.
pub fn body_demanded(demand: Option<Result<(), DemandError>>) -> (result: Option<ReceiveAction>)
    ensures
        match demand {
            Some(Ok(())) => result is None,
            Some(Err(_)) => result == Some(
                ReceiveAction::End { end: ReceiveEnd::Abandoned, told: Told::Nothing },
            ),
            None => result matches Some(action) && bridge::fails(
                action,
                exchange::plain_error(ErrorKind::Canceled, "request receive canceled"),
            ),
        },
{
    match demand {
        Some(Ok(())) => None,
        Some(Err(_)) => Some(
            ReceiveAction::End { end: ReceiveEnd::Abandoned, told: Told::Nothing },
        ),
        None => Some(
            BodyReceiver::fail(Error::new(ErrorKind::Canceled, "request receive canceled")),
        ),
    }
}

/// Goes on once the client was told to send its body, or could not be: no action
/// means that the body is received.
pub fn permission_sent(permission: Option<Result<(), Error>>) -> (result: Option<ReceiveAction>)
    ensures
        match permission {
            Some(Ok(())) => result is None,
            Some(Err(error)) => result matches Some(action) && bridge::fails(action, error),
            None => result matches Some(action) && bridge::fails(
                action,
                exchange::plain_error(ErrorKind::Canceled, "Continue demand canceled"),
            ),
        },
{
    match permission {
        Some(Ok(())) => None,
        Some(Err(error)) => Some(BodyReceiver::fail(error)),
        None => Some(
            BodyReceiver::fail(Error::new(ErrorKind::Canceled, "Continue demand canceled")),
        ),
    }
}

/// How far serving a request has come.
#[derive(Clone, Copy, Debug, PartialEq, Eq, Structural)]
pub enum Work {
    /// The service makes the response.
    Calling,
    /// The response is there and nothing of it was written.
    Ready,
    /// The response is written.
    Sending,
    /// Serving has ended, well or not.
    Ended,
}

/// What to do with what still runs.
#[derive(Clone, Copy, Debug, PartialEq, Eq, Structural)]
pub enum Directive {
    /// Go on.
    Continue,
    /// Cancel it, and await that it ends.
    Cancel,
}

/// One exchange of a server. The request body is received while the service works
/// and while its response is written. Neither a response head nor a whole
/// response says that the request body has been received.
pub struct ServerExchange {
    work: Work,
    received: Option<ReceiveEnd>,
    failure: Option<Error>,
    close: bool,
    exchange: Exchange,
}

/// The mathematical content of an exchange of a server.
pub struct ServerExchangeView {
    pub work: Work,
    pub received: Option<ReceiveEnd>,
    pub failure: Option<Error>,
    pub close: bool,
    pub exchange: ExchangeView,
}

impl View for ServerExchange {
    type V = ServerExchangeView;

    closed spec fn view(&self) -> ServerExchangeView {
        ServerExchangeView {
            work: self.work,
            received: self.received,
            failure: self.failure,
            close: self.close,
            exchange: self.exchange@,
        }
    }
}

impl ServerExchangeView {
    /// The exchange is consistent, a response that is there did not follow a
    /// failure, and serving that ended without a failure has sent a response.
    pub open spec fn wf(self) -> bool {
        &&& self.exchange.wf()
        &&& self.work == Work::Ready ==> self.failure is None
        &&& self.received matches Some(ReceiveEnd::Failed(_)) ==> self.failure is Some
    }

    /// Nothing runs any more.
    pub open spec fn over(self) -> bool {
        self.work == Work::Ended && self.received is Some
    }

}

impl ServerExchange {
    /// Starts an exchange: `close` says that the connection is not used again.
    pub fn new(exchange: Exchange, close: bool) -> (result: Self)
        requires
            exchange@.wf(),
        ensures
            result@ == (ServerExchangeView {
                work: Work::Calling,
                received: None,
                failure: None,
                close,
                exchange: exchange@,
            }),
            result@.wf(),
    {
        ServerExchange { work: Work::Calling, received: None, failure: None, close, exchange }
    }

    /// How far serving has come.
    pub fn work(&self) -> (result: Work)
        ensures
            result == self@.work,
    {
        self.work
    }

    /// Does not use the connection again, where `close` says so.
    pub fn close_if(&mut self, close: bool)
        requires
            old(self)@.wf(),
        ensures
            final(self)@.wf(),
            final(self)@ == (ServerExchangeView { close: old(self)@.close || close, ..old(self)@ }),
    {
        self.close = self.close || close;
    }

    /// Makes the response ready to be sent, once it was started.
    pub fn reply(
        &mut self,
        answer: Answer,
        method: &Method,
        request: Version,
        date: Option<HeaderValue>,
        config: &EncodeConfig,
        memory: Memory,
    ) -> (result: Result<Reply, Error>)
        requires
            old(self)@.wf(),
            old(self)@.work == Work::Sending,
        ensures
            final(self)@.wf(),
            final(self)@ == (ServerExchangeView {
                exchange: final(self)@.exchange,
                ..old(self)@
            }),
            exists|granted: bool| #[trigger]
                memory.may_answer(granted) && replied(
                    answer,
                    answered(answer, request, old(self)@.close, date_value(date)),
                    method@,
                    old(self)@.close,
                    *config,
                    old(self)@.exchange,
                    result,
                    final(self)@.exchange,
                    granted,
                ),
    {
        reply(answer, method, request, self.close, date, config, &mut self.exchange, memory)
    }

    /// Goes on once receiving the request body has ended. A body that failed ends
    /// the exchange: what still runs is canceled, and a response that was not yet
    /// started is not sent.
    pub fn receive_ended(&mut self, end: ReceiveEnd) -> (result: Directive)
        requires
            old(self)@.wf(),
            old(self)@.received is None,
        ensures
            final(self)@.wf(),
            final(self)@.received is Some,
            end is Complete <==> final(self)@.received == Some(ReceiveEnd::Complete),
            end is Abandoned <==> final(self)@.received == Some(ReceiveEnd::Abandoned),
            final(self)@.exchange == old(self)@.exchange,
            final(self)@.close == old(self)@.close,
            match end {
                ReceiveEnd::Failed(error) => {
                    &&& final(self)@.failure == (if old(self)@.failure is Some {
                        old(self)@.failure
                    } else {
                        Some(error)
                    })
                    &&& final(self)@.work == (if old(self)@.work == Work::Ready {
                        Work::Ended
                    } else {
                        old(self)@.work
                    })
                    &&& result == (if old(self)@.work == Work::Calling || old(self)@.work
                        == Work::Sending {
                        Directive::Cancel
                    } else {
                        Directive::Continue
                    })
                },
                _ => {
                    &&& final(self)@.failure == old(self)@.failure
                    &&& final(self)@.work == old(self)@.work
                    &&& result == Directive::Continue
                },
            },
    {
        match end {
            ReceiveEnd::Failed(error) => {
                let running = self.work == Work::Calling || self.work == Work::Sending;
                if self.work == Work::Ready {
                    self.work = Work::Ended;
                }
                let (first, second) = error.split();
                if self.failure.is_none() {
                    self.failure = Some(first);
                }
                self.received = Some(ReceiveEnd::Failed(second));
                if running {
                    Directive::Cancel
                } else {
                    Directive::Continue
                }
            },
            other => {
                self.received = Some(other);
                Directive::Continue
            },
        }
    }

    /// Goes on once the service has ended. Without a response the exchange has
    /// failed.
    pub fn service_ended(&mut self, result: Result<(), Error>) -> (directive: Directive)
        requires
            old(self)@.wf(),
            old(self)@.work == Work::Calling,
        ensures
            final(self)@.wf(),
            final(self)@.received == old(self)@.received,
            final(self)@.exchange == old(self)@.exchange,
            final(self)@.close == old(self)@.close,
            match result {
                Ok(()) => {
                    &&& directive == Directive::Continue
                    &&& final(self)@.failure == old(self)@.failure
                    &&& final(self)@.work == (if old(self)@.failure is Some {
                        Work::Ended
                    } else {
                        Work::Ready
                    })
                },
                Err(error) => {
                    &&& directive == Directive::Cancel
                    &&& final(self)@.work == Work::Ended
                    &&& final(self)@.failure == (if old(self)@.failure is Some {
                        old(self)@.failure
                    } else {
                        Some(error)
                    })
                },
            },
    {
        match result {
            Ok(()) => {
                self.work = if self.failure.is_some() {
                    Work::Ended
                } else {
                    Work::Ready
                };
                Directive::Continue
            },
            Err(error) => {
                self.work = Work::Ended;
                if self.failure.is_none() {
                    self.failure = Some(error);
                }
                Directive::Cancel
            },
        }
    }

    /// Starts the response. A request body that was abandoned before closes the
    /// connection, which the response then says.
    pub fn respond(&mut self) -> (close: bool)
        requires
            old(self)@.wf(),
            old(self)@.work == Work::Ready,
        ensures
            final(self)@.wf(),
            close == (old(self)@.close || old(self)@.received == Some(ReceiveEnd::Abandoned)),
            final(self)@ == (ServerExchangeView { work: Work::Sending, close, ..old(self)@ }),
    {
        if let Some(ReceiveEnd::Abandoned) = &self.received {
            self.close = true;
        }
        self.work = Work::Sending;
        self.close
    }

    /// Goes on once the response has been sent.
    pub fn response_ended(&mut self, result: Result<(), Error>) -> (directive: Directive)
        requires
            old(self)@.wf(),
            old(self)@.work == Work::Sending,
        ensures
            final(self)@.wf(),
            final(self)@.work == Work::Ended,
            final(self)@.received == old(self)@.received,
            final(self)@.exchange == old(self)@.exchange,
            final(self)@.close == old(self)@.close,
            match result {
                Ok(()) => directive == Directive::Continue && final(self)@.failure == old(self)@.failure,
                Err(error) => directive == Directive::Cancel && final(self)@.failure == (if old(self)@.failure is Some {
                    old(self)@.failure
                } else {
                    Some(error)
                }),
            },
    {
        self.work = Work::Ended;
        match result {
            Ok(()) => Directive::Continue,
            Err(error) => {
                if self.failure.is_none() {
                    self.failure = Some(error);
                }
                Directive::Cancel
            },
        }
    }

    /// Concludes an exchange of which nothing runs any more.
    pub fn conclude(self) -> (result: Result<Outcome, Error>)
        requires
            self@.wf(),
            self@.over(),
        ensures
            result == conclusion(self@),
    {
        if let Some(error) = self.failure {
            return Err(error);
        }
        if let Some(ReceiveEnd::Abandoned) = &self.received {
            return Ok(Outcome::Close);
        }
        let mut exchange = self.exchange;
        match exchange.settle(Direction::Request, true) {
            Ok(()) => {},
            Err(error) => return Err(error),
        }
        match exchange.settle(Direction::Response, true) {
            Ok(()) => {},
            Err(error) => return Err(error),
        }
        if self.close {
            exchange.close_after_exchange();
        }
        Ok(exchange.outcome())
    }
}

/// What becomes of the connection of an exchange that is over: the first failure
/// is reported, and a request body that nobody wanted closes the connection.
pub open spec fn conclusion(state: ServerExchangeView) -> Result<Outcome, Error> {
    match state.failure {
        Some(error) => Err(error),
        None => if state.received == Some(ReceiveEnd::Abandoned) {
            Ok(Outcome::Close)
        } else {
            match crate::proto::h1::client::settled(state.exchange, Direction::Request, true) {
                Err(error) => Err(error),
                Ok(one) => match crate::proto::h1::client::settled(one, Direction::Response, true) {
                    Err(error) => Err(error),
                    Ok(both) => if state.close {
                        Ok(
                            (ExchangeView {
                                persistence: crate::proto::h1::Persistence::Close,
                                ..both
                            }).result(),
                        )
                    } else {
                        Ok(both.result())
                    },
                },
            }
        },
    }
}

/// A server reads another request only behind a request body that was received
/// whole and a response that was sent whole, and only where nothing asked to
/// close.
pub proof fn reuse_needs_whole_exchange(state: ServerExchangeView)
    requires
        state.wf(),
        state.over(),
        conclusion(state) == Ok::<Outcome, Error>(Outcome::Reusable),
    ensures
        state.received == Some(ReceiveEnd::Complete),
        state.failure is None,
        !state.close,
        state.exchange.phase == exchange::ResponsePhase::Final,
{
}

/// What a connection does after an exchange.
#[derive(Clone, Copy, Debug, PartialEq, Eq, Structural)]
pub enum Next {
    /// Hand the transport over, with the input that is left.
    Handoff(UpgradeKind),
    /// Shut the transport down.
    Shutdown,
    /// Await the next request, which may already be in the input.
    Await,
}

/// What a connection does after an exchange.
pub fn after_exchange(outcome: Outcome) -> (result: Result<Next, Error>)
    ensures
        result == (match outcome {
            Outcome::Handoff(kind) => Ok(Next::Handoff(kind)),
            Outcome::Close => Ok(Next::Shutdown),
            Outcome::Reusable => Ok(Next::Await),
            Outcome::Active => Err(
                exchange::plain_error(ErrorKind::Internal, "unsettled server exchange"),
            ),
        }),
{
    match outcome {
        Outcome::Handoff(kind) => Ok(Next::Handoff(kind)),
        Outcome::Close => Ok(Next::Shutdown),
        Outcome::Reusable => Ok(Next::Await),
        Outcome::Active => Err(Error::new(ErrorKind::Internal, "unsettled server exchange")),
    }
}

/// What a service amounts to that ended before the writer of informational
/// responses: `written` is how that writer ended afterwards.
pub fn service_result<T>(
    result: Option<Result<T, Payload>>,
    written: Result<(), Error>,
) -> (response: Result<T, Error>)
    ensures
        response == (match result {
            Some(Ok(response)) => match written {
                Ok(()) => Ok(response),
                Err(error) => Err(error),
            },
            Some(Err(failure)) => Err(
                Error {
                    kind: ErrorKind::Service,
                    context: "HTTP service failed",
                    source: Some(Source::Foreign(Rc::new(failure))),
                },
            ),
            None => Err(exchange::plain_error(ErrorKind::Canceled, "HTTP service canceled")),
        }),
{
    match result {
        Some(Ok(response)) => match written {
            Ok(()) => Ok(response),
            Err(error) => Err(error),
        },
        Some(Err(failure)) => Err(
            Error::with_payload(ErrorKind::Service, "HTTP service failed", failure),
        ),
        None => Err(Error::new(ErrorKind::Canceled, "HTTP service canceled")),
    }
}

/// Whether the writer of informational responses is canceled once the service has
/// ended: no answer means that calling it was canceled.
pub fn cancels_writer<T, E>(result: &Option<Result<T, E>>) -> (cancels: bool)
    ensures
        cancels == !(result matches Some(Ok(_))),
{
    match result {
        Some(Ok(_)) => false,
        _ => true,
    }
}

/// What serving amounts to when the writer of informational responses ended
/// before the service.
pub fn writer_stopped(written: Result<(), Error>) -> (result: Error)
    ensures
        result == (match written {
            Err(error) => error,
            Ok(()) => exchange::plain_error(ErrorKind::Canceled, "informational writer stopped"),
        }),
{
    match written {
        Err(error) => error,
        Ok(()) => Error::new(ErrorKind::Canceled, "informational writer stopped"),
    }
}

/// An informational response that is to be sent.
pub enum Command {
    /// Permission for the body, sent without the application.
    Continue,
    /// A response of the application.
    Application { status: StatusCode, version: Version, headers: HeaderMap },
}

/// What the writer of informational responses does next.
#[derive(Debug)]
pub enum InformationalAction {
    /// Write a head and flush it.
    Write { head: EncodedHead, automatic: bool },
    /// Tell the application that its response is refused.
    Refuse(Error),
    /// Stop.
    Stop(Error),
}

/// Sends the informational responses of one exchange, in order and within a
/// budget.
#[derive(Debug)]
pub struct InformationalWriter {
    pub count: usize,
    pub max: usize,
}

/// The response head that a command asks for.
pub open spec fn commanded(command: Command) -> ResponseView {
    match command {
        Command::Continue => ResponseView {
            version: Version::Http11,
            status: 100,
            headers: Seq::empty(),
        },
        Command::Application { status, version, headers } => ResponseView {
            version,
            status: status.number(),
            headers: fields::entries(headers),
        },
    }
}

/// The text of a method.
pub open spec fn get() -> Seq<u8> {
    crate::message::method_named("GET")
}

/// What a message without a body promises: no payload and no trailers.
pub open spec fn nothing() -> BodyMetadata {
    BodyMetadata { size: SizeHint::exactly(0), trailers: TrailerHint::Absent }
}

/// Whether an error is why an informational response cannot be sent, whatever the
/// writer has sent before. A map whose index fills up early may refuse another
/// field.
pub open spec fn unencodable(
    head: ResponseView,
    config: EncodeConfig,
    error: Error,
    granted: bool,
) -> bool {
    ||| encode::response_refusal(head, nothing(), get(), config.bounds(), granted) matches Some(
        refusal,
    ) && error == error::encode_failure(refusal)
    ||| fields::nearly_full(head.headers) && error == error::encode_failure(EncodeError::Limit)
}

/// Whether an encoded head is that of an informational response.
pub open spec fn encodes(
    head: ResponseView,
    config: EncodeConfig,
    encoded: EncodedHead,
    granted: bool,
) -> bool {
    encode::response_prepared(
        head,
        nothing(),
        get(),
        config.bounds(),
        encode::response_with_plan(head, nothing(), get(), Ok(encoded)),
        granted,
    )
}

/// Whether an action is what a writer does with a command, where `granted` says
/// whether there is memory for the head.
pub open spec fn informs(
    writer: InformationalWriter,
    version: Version,
    command: Command,
    config: EncodeConfig,
    action: InformationalAction,
    granted: bool,
) -> bool {
    match action {
        InformationalAction::Write { head, automatic } => {
            &&& writer_refusal(writer, version) is None
            &&& automatic == (command is Continue)
            &&& encodes(commanded(command), config, head, granted)
        },
        InformationalAction::Refuse(error) => command is Application && refused_with(
            writer,
            version,
            command,
            config,
            error,
            granted,
        ),
        InformationalAction::Stop(error) => command is Continue && refused_with(
            writer,
            version,
            command,
            config,
            error,
            granted,
        ),
    }
}

/// Why no informational response may be sent, whatever it is.
pub open spec fn writer_refusal(writer: InformationalWriter, version: Version) -> Option<Error> {
    if version != Version::Http11 {
        Some(
            exchange::plain_error(
                ErrorKind::Unsupported,
                "informational responses require HTTP/1.1",
            ),
        )
    } else if writer.count == writer.max {
        Some(exchange::plain_error(ErrorKind::Limit, "too many informational responses"))
    } else {
        None
    }
}

impl InformationalWriter {
    pub open spec fn wf(self) -> bool {
        self.count <= self.max
    }

    pub fn new(max: usize) -> (result: Self)
        ensures
            result == (InformationalWriter { count: 0, max }),
            result.wf(),
    {
        InformationalWriter { count: 0, max }
    }

    /// Goes on once a response was awaited: no answer means that waiting was
    /// canceled, and no response that the exchange has no more of them.
    pub fn awaited(command: Option<Option<Command>>) -> (result: Result<Option<Command>, Error>)
        ensures
            result == (match command {
                Some(command) => Ok(command),
                None => Err(
                    exchange::plain_error(
                        ErrorKind::Canceled,
                        "informational writer canceled",
                    ),
                ),
            }),
    {
        match command {
            Some(command) => Ok(command),
            None => Err(Error::new(ErrorKind::Canceled, "informational writer canceled")),
        }
    }

    /// Goes on with the next response, to a request of this version, its head in
    /// this memory. A response of the application that cannot be sent is refused
    /// and the writer goes on; one that is sent without it stops the writer.
    pub fn next(
        &self,
        command: Command,
        version: Version,
        config: &EncodeConfig,
        memory: Memory,
    ) -> (action: InformationalAction)
        requires
            self.wf(),
        ensures
            exists|granted: bool| #[trigger]
                memory.may_answer(granted) && informs(
                    *self,
                    version,
                    command,
                    *config,
                    action,
                    granted,
                ),
    {
        let automatic = match &command {
            Command::Continue => true,
            Command::Application { .. } => false,
        };
        match self.encode(command, version, config, memory) {
            Ok(head) => InformationalAction::Write { head, automatic },
            Err(error) => if automatic {
                InformationalAction::Stop(error)
            } else {
                InformationalAction::Refuse(error)
            },
        }
    }

    fn encode(
        &self,
        command: Command,
        version: Version,
        config: &EncodeConfig,
        memory: Memory,
    ) -> (result: Result<EncodedHead, Error>)
        requires
            self.wf(),
        ensures
            exists|granted: bool| #[trigger]
                memory.may_answer(granted) && (match result {
                    Ok(head) => writer_refusal(*self, version) is None && encodes(
                        commanded(command),
                        *config,
                        head,
                        granted,
                    ),
                    Err(error) => refused_with(*self, version, command, *config, error, granted),
                }),
    {
        assert(memory.may_answer(true) || memory.may_answer(false));
        if version != Version::Http11 {
            return Err(
                Error::new(ErrorKind::Unsupported, "informational responses require HTTP/1.1"),
            );
        }
        if self.count == self.max {
            return Err(Error::new(ErrorKind::Limit, "too many informational responses"));
        }
        let (status, version, headers) = match command {
            Command::Continue => (
                StatusCode::from_u16(100).unwrap(),
                Version::Http11,
                fields::empty(),
            ),
            Command::Application { status, version, headers } => (status, version, headers),
        };
        let metadata = BodyMetadata {
            size: SizeHint::with_exact(0),
            trailers: TrailerHint::Absent,
        };
        let method = Method::get();
        match encode_response_head_with_memory(
            status,
            version,
            headers,
            metadata,
            &method,
            config.limits(),
            memory,
        ) {
            Ok(head) => Ok(head),
            Err(refusal) => Err(Error::from(refusal)),
        }
    }

    /// Goes on once a head was written. A response that could not be written
    /// stops the writer, and the application is told the same error.
    pub fn written(&mut self, automatic: bool, result: Result<(), Error>) -> (told: (
        Result<(), Error>,
        Option<Result<(), Error>>,
    ))
        requires
            old(self).wf(),
            old(self).count < old(self).max,
        ensures
            final(self).wf(),
            final(self).max == old(self).max,
            final(self).count == old(self).count + (if result is Ok {
                1int
            } else {
                0int
            }),
            told.0 == result,
            told.1 == (if automatic {
                None
            } else {
                Some(result)
            }),
    {
        match result {
            Ok(done) => {
                self.count = self.count + 1;
                if automatic {
                    (Ok(done), None)
                } else {
                    (Ok(done), Some(Ok(done)))
                }
            },
            Err(error) => if automatic {
                (Err(error), None)
            } else {
                let (driver, observer) = error.split();
                (Err(driver), Some(Err(observer)))
            },
        }
    }
}

/// Whether an error is why a command cannot be carried out.
pub open spec fn refused_with(
    writer: InformationalWriter,
    version: Version,
    command: Command,
    config: EncodeConfig,
    error: Error,
    granted: bool,
) -> bool {
    match writer_refusal(writer, version) {
        Some(refusal) => error == refusal,
        None => unencodable(commanded(command), config, error, granted),
    }
}

/// The date of the present second, written once for all responses of that second.
pub struct DateCache {
    pub cached: Option<(u64, HeaderValue)>,
}

impl DateCache {
    /// A date that is kept is that of its second.
    pub open spec fn wf(self) -> bool {
        self.cached matches Some((second, value)) ==> fields::value_text(value) == date::date_text(
            second,
        )
    }

    pub fn new() -> (result: Self)
        ensures
            result.cached is None,
            result.wf(),
    {
        DateCache { cached: None }
    }

    /// The date of a second.
    pub fn value(&mut self, second: u64) -> (result: HeaderValue)
        requires
            old(self).wf(),
            second < END_OF_DATES,
        ensures
            final(self).wf(),
            final(self).cached matches Some((kept, _)) && kept == second,
            fields::value_text(result) == date::date_text(second),
    {
        if let Some((cached, value)) = &self.cached {
            if *cached == second {
                return fields::same_value(value);
            }
        }
        let text = date::http_date(second);
        let value = fields::value(text.as_slice()).unwrap();
        let kept = fields::same_value(&value);
        self.cached = Some((second, kept));
        value
    }
}

/// The fields of a response with what the connection adds to them.
pub open spec fn with_connection_fields(
    headers: Seq<(Seq<u8>, Seq<Seq<u8>>)>,
    close: bool,
    date: Option<Seq<u8>>,
) -> Seq<(Seq<u8>, Seq<Seq<u8>>)> {
    let closing = if close {
        fields::appended(headers, fields::named("connection"), fields::close_text())
    } else {
        headers
    };
    match date {
        Some(text) => if fields::has_name(closing, fields::named("date")) {
            closing
        } else {
            fields::inserted(closing, fields::named("date"), text)
        },
        None => closing,
    }
}

/// The version in which a response is sent to a request.
pub open spec fn response_version(request: Version, response: Version) -> Version {
    if request == Version::Http10 {
        Version::Http10
    } else {
        response
    }
}

/// A response that is ready to be sent.
#[derive(Debug)]
pub struct Reply {
    pub head: EncodedHead,
    pub encoder: BodyEncoder,
}

/// What is known of a response before it is made ready.
pub struct Answer {
    pub status: StatusCode,
    pub version: Version,
    pub headers: HeaderMap,
    pub metadata: BodyMetadata,
}

/// The response head that is planned for an answer.
pub open spec fn answered(
    answer: Answer,
    request: Version,
    close: bool,
    date: Option<Seq<u8>>,
) -> ResponseView {
    ResponseView {
        version: response_version(request, answer.version),
        status: answer.status.number(),
        headers: with_connection_fields(fields::entries(answer.headers), close, date),
    }
}

pub open spec fn date_value(date: Option<HeaderValue>) -> Option<Seq<u8>> {
    match date {
        Some(value) => Some(fields::value_text(value)),
        None => None,
    }
}

/// Whether a status belongs to a response of its own kind that is not sent here.
pub open spec fn elsewhere(status: u16) -> bool {
    100 <= status < 200 && status != 101
}

pub open spec fn unsupported_status() -> Error {
    exchange::plain_error(
        ErrorKind::Unsupported,
        "informational responses and transport handoff require their dedicated APIs",
    )
}

pub open spec fn closing_handoff() -> Error {
    exchange::plain_error(
        ErrorKind::Upgrade,
        "closing exchange cannot transfer transport ownership",
    )
}

/// Adds to the fields of a response what the connection adds, unless they fill up
/// the index of their map.
fn add_connection_fields(headers: HeaderMap, close: bool, date: Option<HeaderValue>) -> (result:
    Option<HeaderMap>)
    ensures
        match result {
            Some(added) => fields::entries(added) == with_connection_fields(
                fields::entries(headers),
                close,
                date_value(date),
            ),
            None => fields::nearly_full(fields::entries(headers)),
        },
{
    let ghost given = fields::entries(headers);
    let mut headers = headers;
    proof {
        fields::appended_len(given, fields::named("connection"), fields::close_text());
    }
    if close {
        if !fields::append(&mut headers, fields::connection(), fields::close_value()) {
            return None;
        }
    }
    if let Some(value) = date {
        if !fields::contains(&headers, "date") {
            if !fields::insert(&mut headers, fields::date(), value) {
                return None;
            }
        }
    }
    Some(headers)
}

/// What an answer leads to, where `granted` says whether there is memory for its
/// head: what the response means or why it is not sent, and what is left of the
/// exchange.
pub open spec fn reply_outcome(
    head: ResponseView,
    metadata: BodyMetadata,
    method: Seq<u8>,
    close: bool,
    config: EncodeConfig,
    exchange: ExchangeView,
    granted: bool,
) -> (Result<ResponseMeaning, Error>, ExchangeView) {
    if elsewhere(head.status) {
        (Err(unsupported_status()), exchange)
    } else {
        match encode::response_refusal(head, metadata, method, config.bounds(), granted) {
            Some(refusal) => (Err(error::encode_failure(refusal)), exchange),
            None => {
                let meaning = encode::planned_response(head, metadata, method)->Ok_0;
                if meaning.upgrade is Some && close {
                    (Err(closing_handoff()), exchange)
                } else {
                    match exchange::sent(exchange, meaning) {
                        Err(error) => (Err(error), exchange.aborted()),
                        Ok((_, next)) => match encode::mode_conflict(meaning.body, metadata) {
                            Some(refusal) => (Err(error::encode_failure(refusal)), next),
                            None => (Ok(meaning), next),
                        },
                    }
                }
            },
        }
    }
}

/// Whether a result and an exchange are what an answer leads to. A map whose index
/// fills up early may refuse another field.
pub open spec fn replied(
    answer: Answer,
    head: ResponseView,
    method: Seq<u8>,
    close: bool,
    config: EncodeConfig,
    before: ExchangeView,
    result: Result<Reply, Error>,
    after: ExchangeView,
    granted: bool,
) -> bool {
    let (expected, left) = reply_outcome(
        head,
        answer.metadata,
        method,
        close,
        config,
        before,
        granted,
    );
    let as_planned = match result {
        Ok(reply) => expected matches Ok(meaning) && replies(
            reply,
            meaning,
            answer.metadata,
            config,
        ),
        Err(error) => expected == Err::<ResponseMeaning, Error>(error),
    };
    ||| as_planned && after == left
    ||| !elsewhere(head.status) && (fields::nearly_full(fields::entries(answer.headers))
        || fields::nearly_full(head.headers)) && result == Err::<Reply, Error>(
        error::encode_failure(EncodeError::Limit),
    ) && after == before
}

/// Makes a response ready to be sent, its head in this memory: `date` is the date
/// to add where the response has none. Fields that fill up the index of their map
/// are refused like a head that is too long.
pub fn reply(
    answer: Answer,
    method: &Method,
    request: Version,
    close: bool,
    date: Option<HeaderValue>,
    config: &EncodeConfig,
    exchange: &mut Exchange,
    memory: Memory,
) -> (result: Result<Reply, Error>)
    requires
        old(exchange)@.wf(),
    ensures
        final(exchange)@.wf(),
        exists|granted: bool| #[trigger]
            memory.may_answer(granted) && replied(
                answer,
                answered(answer, request, close, date_value(date)),
                method@,
                close,
                *config,
                old(exchange)@,
                result,
                final(exchange)@,
                granted,
            ),
{
    assert(memory.may_answer(true) || memory.may_answer(false));
    if answer.status.is_informational() && answer.status.as_u16() != 101 {
        return Err(
            Error::new(
                ErrorKind::Unsupported,
                "informational responses and transport handoff require their dedicated APIs",
            ),
        );
    }
    let Answer { status, version, headers, metadata } = answer;
    let headers = match add_connection_fields(headers, close, date) {
        Some(headers) => headers,
        None => return Err(Error::from(EncodeError::Limit)),
    };
    let version = if request == Version::Http10 {
        Version::Http10
    } else {
        version
    };
    let limits = config.limits();
    let (head, validated) = match prepare_response_head_with_memory(
        status,
        version,
        headers,
        metadata,
        method,
        limits,
        memory,
    ) {
        Ok(prepared) => prepared,
        Err(refusal) => return Err(Error::from(refusal)),
    };
    if head.upgrade.is_some() && close {
        return Err(
            Error::new(
                ErrorKind::Upgrade,
                "closing exchange cannot transfer transport ownership",
            ),
        );
    }
    match exchange.sent_response(&validated) {
        Ok(_) => {},
        Err(error) => return Err(error),
    }
    match BodyEncoder::new(head.mode, metadata, limits) {
        Ok(encoder) => Ok(Reply { head, encoder }),
        Err(refusal) => Err(Error::from(refusal)),
    }
}

/// Whether a reply is that of a response that means this.
pub open spec fn replies(
    reply: Reply,
    meaning: ResponseMeaning,
    metadata: BodyMetadata,
    config: EncodeConfig,
) -> bool {
    &&& octets::octets(reply.head.bytes) == encode::response_bytes(meaning.head)
    &&& octets::octets(reply.head.bytes).len() <= config.max_head_bytes
    &&& reply.head.mode == meaning.body
    &&& reply.head.persistence == meaning.persistence
    &&& reply.head.upgrade == meaning.upgrade
    &&& encode::mode_conflict(meaning.body, metadata) is None
    &&& reply.encoder == (BodyEncoder {
        state: encode::encoder_state(meaning.body),
        max_trailer_bytes: config.max_trailer_bytes,
        remaining_lower: metadata.size.low(),
        remaining_upper: metadata.size.high(),
        trailers: metadata.trailers,
    })
}

} // verus!
