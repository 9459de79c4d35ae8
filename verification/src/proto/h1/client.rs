//! What a client connection decides.

use crate::error::{self, Error, ErrorKind};
use crate::io::recv::{ReadStatus, RecvBuffer};
use crate::message::{Method, Target, Version};
use crate::outside::fields;
use crate::outside::octets;
use crate::proto::h1::bridge::ReceiveEnd;
use crate::proto::h1::encode::{
    self, prepare_request_head_with_memory, BodyEncoder, BodyMetadata, EncodeConfig, EncodeError,
    EncodedHead, Memory,
};
use crate::proto::h1::exchange::{
    self, Direction, Exchange, ExchangeView, HeadAction, Outcome,
};
use crate::proto::h1::head::{
    self, HeadError, HeadParser, RequestView, ResponseRole,
};
use crate::proto::h1::validate::{RequestMeaning, ResponseMeaning, ValidatedResponseHead};
use crate::proto::h1::{BodyMode, Expectation, UpgradeKind};
use http::HeaderMap;
use vstd::prelude::*;

verus! {

/// A request that is ready to be sent.
pub struct Departure {
    pub head: EncodedHead,
    pub exchange: Exchange,
    pub encoder: BodyEncoder,
    /// Whether the body waits for permission, where a wait is configured.
    pub expects_continue: bool,
}

/// Whether a message has a body to send.
pub open spec fn has_payload(mode: BodyMode) -> bool {
    mode != BodyMode::Empty && mode != BodyMode::Fixed(0)
}

/// Whether a departure is that of a request that means this.
pub open spec fn departs(
    departure: Departure,
    meaning: RequestMeaning,
    metadata: BodyMetadata,
    config: EncodeConfig,
    max_informational: nat,
) -> bool {
    &&& octets::octets(departure.head.bytes) == encode::request_bytes(meaning.head)
    &&& octets::octets(departure.head.bytes).len() <= config.max_head_bytes
    &&& departure.head.mode == meaning.body
    &&& departure.head.persistence == meaning.persistence
    &&& departure.head.upgrade is None
    &&& departure.exchange@ == exchange::started(meaning, max_informational)
    &&& departure.exchange@.wf()
    &&& departure.encoder == (BodyEncoder {
        state: encode::encoder_state(meaning.body),
        max_trailer_bytes: config.max_trailer_bytes,
        remaining_lower: metadata.size.low(),
        remaining_upper: metadata.size.high(),
        trailers: metadata.trailers,
    })
    &&& departure.expects_continue == (meaning.expectation == Expectation::Continue && has_payload(
        meaning.body,
    ))
}

/// Why a request does not depart, if it does not, where `granted` says whether
/// there is memory for its head.
pub open spec fn departure_refusal(
    head: RequestView,
    metadata: BodyMetadata,
    config: EncodeConfig,
    granted: bool,
) -> Option<EncodeError> {
    match encode::request_refusal(head, metadata, config.bounds(), granted) {
        Some(refusal) => Some(refusal),
        None => encode::mode_conflict(
            encode::planned_request(head, metadata)->Ok_0.body,
            metadata,
        ),
    }
}

/// Whether a result is what the departure of a request leads to, where `granted`
/// says whether there is memory for its head. A map whose index fills up early may
/// refuse another field.
pub open spec fn departed(
    head: RequestView,
    metadata: BodyMetadata,
    config: EncodeConfig,
    max_informational: nat,
    result: Result<Departure, Error>,
    granted: bool,
) -> bool {
    let refusal = departure_refusal(head, metadata, config, granted);
    match result {
        Ok(departure) => refusal is None && departs(
            departure,
            encode::planned_request(head, metadata)->Ok_0,
            metadata,
            config,
            max_informational,
        ),
        Err(error) => {
            ||| refusal matches Some(refusal) && error == error::encode_failure(refusal)
            ||| fields::nearly_full(head.headers) && error == error::encode_failure(
                EncodeError::Limit,
            )
        },
    }
}

/// Makes a request ready to be sent, its head in this memory. A head that is too
/// long is refused with the same error as one that there is no memory for, or
/// whose fields fill up the index of their map.
pub fn depart(
    method: Method,
    target: Target,
    version: Version,
    headers: HeaderMap,
    metadata: BodyMetadata,
    config: EncodeConfig,
    max_informational: usize,
    memory: Memory,
) -> (result: Result<Departure, Error>)
    ensures
        exists|granted: bool| #[trigger]
            memory.may_answer(granted) && departed(
                encode::outgoing_request(method, target, version, headers),
                metadata,
                config,
                max_informational as nat,
                result,
                granted,
            ),
{
    let limits = config.limits();
    let (head, request) = match prepare_request_head_with_memory(
        method,
        target,
        version,
        headers,
        metadata,
        limits,
        memory,
    ) {
        Ok(prepared) => prepared,
        Err(refusal) => return Err(Error::from(refusal)),
    };
    let exchange = Exchange::new(&request, max_informational);
    let encoder = match BodyEncoder::new(head.mode, metadata, limits) {
        Ok(encoder) => encoder,
        Err(refusal) => return Err(Error::from(refusal)),
    };
    let payload = match head.mode {
        BodyMode::Empty => false,
        BodyMode::Fixed(length) => length != 0,
        _ => true,
    };
    let expects_continue = request.expectation == Expectation::Continue && payload;
    Ok(Departure { head, exchange, encoder, expects_continue })
}

/// What an upload does next.
#[derive(Clone, Copy, Debug, PartialEq, Eq, Structural)]
pub enum UploadStep {
    /// Flush the head and await permission for the body, for as long as is
    /// configured.
    AwaitPermission,
    SendBody,
    /// Flush what was written. The upload is then complete.
    Flush,
}

pub open spec fn body_step(mode: BodyMode) -> UploadStep {
    if mode == BodyMode::Empty {
        UploadStep::Flush
    } else {
        UploadStep::SendBody
    }
}

/// Goes on once the head of a request was written: `waits` says whether a wait
/// for permission is configured.
pub fn head_written(departure: &Departure, waits: bool) -> (result: UploadStep)
    ensures
        result == (if departure.expects_continue && waits {
            UploadStep::AwaitPermission
        } else {
            body_step(departure.head.mode)
        }),
{
    if departure.expects_continue && waits {
        return UploadStep::AwaitPermission;
    }
    match departure.head.mode {
        BodyMode::Empty => UploadStep::Flush,
        _ => UploadStep::SendBody,
    }
}

/// Goes on once a wait for permission has ended: with permission and without it
/// the body is sent, unless waiting was canceled.
pub fn permission_awaited(mode: BodyMode, canceled: bool) -> (result: Result<UploadStep, Error>)
    ensures
        result == (if canceled {
            Err(exchange::plain_error(ErrorKind::Canceled, "Continue wait canceled"))
        } else {
            Ok(body_step(mode))
        }),
{
    if canceled {
        return Err(Error::new(ErrorKind::Canceled, "Continue wait canceled"));
    }
    match mode {
        BodyMode::Empty => Ok(UploadStep::Flush),
        _ => Ok(UploadStep::SendBody),
    }
}

/// What awaiting a response does next.
#[derive(Debug)]
pub enum HeadStep {
    /// Read more input.
    Read,
    /// Report an informational response. It may permit the upload.
    Informational { head: ValidatedResponseHead, permits: bool },
    /// Report the response. The upload is permitted.
    Final { head: ValidatedResponseHead },
}

/// Whether a step is what a response head calls for.
pub open spec fn reports(step: HeadStep, meaning: ResponseMeaning, action: HeadAction) -> bool {
    match action {
        HeadAction::Informational => step matches HeadStep::Informational { head, permits } && head@
            == meaning && permits == (meaning.head.status == 100),
        _ => step matches HeadStep::Final { head } && head@ == meaning,
    }
}

/// Whether a result is what a whole response head in the input leads to.
pub open spec fn concludes(
    result: Result<HeadStep, Error>,
    input: Seq<u8>,
    limits: head::HeadLimits,
    before: ExchangeView,
    after: ExchangeView,
) -> bool {
    match head::response_head(input, limits) {
        Ok(read) => match exchange::accepted(before, read) {
            Ok((meaning, action, next)) => (result matches Ok(step) && reports(
                step,
                meaning,
                action,
            ) && after == next) || refused_as_crowded(result, input, limits, before, after),
            Err(refusal) => (result == Err::<HeadStep, Error>(refusal) && after == before.aborted())
                || refused_as_crowded(result, input, limits, before, after),
        },
        Err(refusal) => (result == Err::<HeadStep, Error>(error::head_failure(refusal)) && after
            == before) || refused_as_crowded(result, input, limits, before, after),
    }
}

/// Whether a head is refused because its fields fill up the index of their map.
pub open spec fn refused_as_crowded(
    result: Result<HeadStep, Error>,
    input: Seq<u8>,
    limits: head::HeadLimits,
    before: ExchangeView,
    after: ExchangeView,
) -> bool {
    &&& head::response_crowded(input, limits)
    &&& result == Err::<HeadStep, Error>(
        error::head_failure(HeadError::Limit(head::HeadLimit::HeaderMap)),
    )
    &&& after == before
}

/// Looks for a response head in the input. A deadline that has passed comes
/// before anything that the input holds.
pub fn await_head(
    parser: &mut HeadParser<ResponseRole>,
    buffer: &mut RecvBuffer,
    exchange: &mut Exchange,
    expired: bool,
) -> (result: Result<HeadStep, Error>)
    requires
        old(parser).wf(),
        old(parser).follows(old(buffer)@),
        old(buffer).wf(),
        old(exchange)@.wf(),
    ensures
        final(parser).wf(),
        final(parser).limits == old(parser).limits,
        final(buffer).wf(),
        final(buffer).same_limits(*old(buffer)),
        final(exchange)@.wf(),
        if expired {
            result == Err::<HeadStep, Error>(
                exchange::plain_error(ErrorKind::Timeout, "HTTP head deadline exceeded"),
            ) && *final(buffer) == *old(buffer) && final(exchange)@ == old(exchange)@
        } else {
            match head::bounded_head(old(buffer)@, old(parser).limits) {
                Err(refusal) => result == Err::<HeadStep, Error>(error::head_failure(refusal))
                    && *final(buffer) == *old(buffer) && final(exchange)@ == old(exchange)@,
                Ok(None) => {
                    &&& result matches Ok(HeadStep::Read)
                    &&& *final(buffer) == *old(buffer) && final(exchange)@ == old(exchange)@
                    &&& forall|more: Seq<u8>|
                        final(parser).follows(#[trigger] (old(buffer)@ + more))
                },
                Ok(Some(length)) => {
                    &&& final(buffer)@ == old(buffer)@.skip(length as int)
                    &&& concludes(
                        result,
                        old(buffer)@.take(length as int),
                        old(parser).limits,
                        old(exchange)@,
                        final(exchange)@,
                    )
                    &&& forall|next: Seq<u8>| final(parser).follows(next)
                },
            }
        },
{
    if expired {
        return Err(Error::new(ErrorKind::Timeout, "HTTP head deadline exceeded"));
    }
    let length = match parser.head_len(buffer.bytes()) {
        Ok(Some(length)) => length,
        Ok(None) => return Ok(HeadStep::Read),
        Err(refusal) => return Err(Error::from(refusal)),
    };
    let ghost input = buffer@;
    let prefix = match buffer.take_shared_prefix(length) {
        Ok(prefix) => prefix,
        Err(error) => return Err(error),
    };
    proof {
        assert(input.subrange(0, length as int) =~= input.take(length as int));
        assert(input.subrange(length as int, input.len() as int) =~= input.skip(length as int));
    }
    let received = match parser.parse_shared(prefix) {
        Ok(received) => received,
        Err(refusal) => return Err(Error::from(refusal)),
    };
    let (head, action) = match exchange.receive_head(received) {
        Ok(accepted) => accepted,
        Err(error) => return Err(error),
    };
    match action {
        HeadAction::Informational => {
            let permits = head.head.status.as_u16() == 100;
            Ok(HeadStep::Informational { head, permits })
        },
        _ => Ok(HeadStep::Final { head }),
    }
}

/// Goes on once a read for a response head has completed: `empty` says whether
/// no input is left.
pub fn head_read(result: Result<ReadStatus, Error>, empty: bool) -> (read: Result<(), Error>)
    ensures
        read == (match result {
            Err(error) => Err(error),
            Ok(ReadStatus::Data(_)) => Ok(()),
            Ok(ReadStatus::Eof) => Err(
                exchange::plain_error(
                    if empty {
                        ErrorKind::Closed
                    } else {
                        ErrorKind::InvalidMessage
                    },
                    "connection ended before a final response head",
                ),
            ),
        }),
{
    match result {
        Err(error) => Err(error),
        Ok(ReadStatus::Data(_)) => Ok(()),
        Ok(ReadStatus::Eof) => {
            let kind = if empty {
                ErrorKind::Closed
            } else {
                ErrorKind::InvalidMessage
            };
            Err(Error::new(kind, "connection ended before a final response head"))
        },
    }
}

/// Goes on once a response was offered to its observer: `taken` says whether the
/// observer took it, `elapsed` that the deadline passed before.
pub fn observed(taken: bool, elapsed: bool) -> (result: Result<(), Error>)
    ensures
        result == (if elapsed {
            Err(
                exchange::plain_error(ErrorKind::Timeout, "final response head deadline exceeded"),
            )
        } else if taken {
            Ok(())
        } else {
            Err(exchange::plain_error(ErrorKind::Canceled, "response observation abandoned"))
        }),
{
    if elapsed {
        return Err(Error::new(ErrorKind::Timeout, "final response head deadline exceeded"));
    }
    if taken {
        Ok(())
    } else {
        Err(Error::new(ErrorKind::Canceled, "response observation abandoned"))
    }
}

/// What receiving a response ended with, once its head was reported.
pub fn received(end: ReceiveEnd) -> (result: Result<ReceiveEnd, Error>)
    ensures
        result == (match end {
            ReceiveEnd::Failed(error) => Err(error),
            other => Ok(other),
        }),
{
    match end {
        ReceiveEnd::Failed(error) => Err(error),
        other => Ok(other),
    }
}

pub open spec fn is_canceled(error: Error) -> bool {
    error.kind == ErrorKind::Canceled
}

/// Whether the upload is canceled because of how receiving ended, while the
/// upload still runs.
pub fn stops_upload(received: &Result<ReceiveEnd, Error>) -> (result: bool)
    ensures
        result == (*received is Err || *received matches Ok(ReceiveEnd::Abandoned)),
{
    match received {
        Err(_) => true,
        Ok(ReceiveEnd::Abandoned) => true,
        Ok(_) => false,
    }
}

/// Whether receiving is canceled because of how the upload ended, while receiving
/// still runs. An upload that its owner aborted keeps the response.
pub fn stops_receiving(sent: &Result<(), Error>, aborted: bool) -> (result: bool)
    ensures
        result == (*sent matches Err(error) && (!is_canceled(error) || !aborted)),
{
    match sent {
        Ok(()) => false,
        Err(error) => !error.is_canceled() || !aborted,
    }
}

/// What settling a direction makes of an exchange, or that it cannot settle.
pub open spec fn settled(exchange: ExchangeView, direction: Direction, clean: bool) -> Result<
    ExchangeView,
    Error,
> {
    if exchange.may_settle(direction, clean) {
        Ok(exchange.with_settled(direction, clean))
    } else {
        Err(
            exchange::plain_error(ErrorKind::Internal, "invalid exchange completion transition"),
        )
    }
}

/// What becomes of a connection whose exchange has ended in both directions.
///
/// The failure that came first is preferred over the cancellation that it caused
/// in the other direction. An upload that its owner aborted does not spoil the
/// response, and never lets the connection be used again.
pub open spec fn conclusion(
    exchange: ExchangeView,
    received: Result<ReceiveEnd, Error>,
    sent: Result<(), Error>,
    aborted: bool,
) -> Result<Outcome, Error> {
    match received {
        Err(error) => match sent {
            Err(cause) => if !is_canceled(cause) && is_canceled(error) {
                Err(cause)
            } else {
                Err(error)
            },
            Ok(()) => Err(error),
        },
        Ok(ReceiveEnd::Failed(error)) => Err(error),
        Ok(ReceiveEnd::Abandoned) => match sent {
            Err(error) => if is_canceled(error) {
                Ok(Outcome::Close)
            } else {
                Err(error)
            },
            Ok(()) => Ok(Outcome::Close),
        },
        Ok(ReceiveEnd::Complete) => {
            let clean = sent is Ok;
            if sent matches Err(error) && (!is_canceled(error) || !aborted) {
                Err(sent->Err_0)
            } else {
                match settled(exchange, Direction::Request, clean) {
                    Err(error) => Err(error),
                    Ok(uploaded) => match settled(uploaded, Direction::Response, true) {
                        Err(error) => Err(error),
                        Ok(both) => if aborted {
                            Ok(Outcome::Close)
                        } else {
                            Ok(both.result())
                        },
                    },
                }
            }
        },
    }
}

/// Concludes an exchange that has ended in both directions.
pub fn conclude(
    exchange: Exchange,
    received: Result<ReceiveEnd, Error>,
    sent: Result<(), Error>,
    aborted: bool,
) -> (result: Result<Outcome, Error>)
    requires
        exchange@.wf(),
    ensures
        result == conclusion(exchange@, received, sent, aborted),
{
    let mut exchange = exchange;
    let end = match received {
        Ok(end) => end,
        Err(error) => {
            return Err(
                match sent {
                    Err(cause) => if !cause.is_canceled() && error.is_canceled() {
                        cause
                    } else {
                        error
                    },
                    Ok(()) => error,
                },
            );
        },
    };
    match end {
        ReceiveEnd::Failed(error) => return Err(error),
        ReceiveEnd::Abandoned => {
            return match sent {
                Err(error) => if error.is_canceled() {
                    Ok(Outcome::Close)
                } else {
                    Err(error)
                },
                Ok(()) => Ok(Outcome::Close),
            };
        },
        ReceiveEnd::Complete => {},
    }
    let clean = match sent {
        Ok(()) => true,
        Err(error) => {
            if !error.is_canceled() || !aborted {
                return Err(error);
            }
            false
        },
    };
    match exchange.settle(Direction::Request, clean) {
        Ok(()) => {},
        Err(error) => return Err(error),
    }
    match exchange.settle(Direction::Response, true) {
        Ok(()) => {},
        Err(error) => return Err(error),
    }
    if aborted {
        exchange.close_after_exchange();
        return Ok(Outcome::Close);
    }
    Ok(exchange.outcome())
}

/// An exchange is followed by another one only when its response was received
/// whole, its request was sent whole, and nobody aborted it.
pub proof fn reuse_needs_clean_exchange(
    exchange: ExchangeView,
    received: Result<ReceiveEnd, Error>,
    sent: Result<(), Error>,
    aborted: bool,
)
    requires
        exchange.wf(),
        conclusion(exchange, received, sent, aborted) matches Ok(outcome) && outcome
            != Outcome::Close,
    ensures
        received matches Ok(ReceiveEnd::Complete),
        sent is Ok,
        !aborted,
{
    if sent is Err {
        let uploaded = exchange.with_settled(Direction::Request, false);
        assert(uploaded.failed);
    }
}

/// The failure that came first is reported: a cancellation is reported only where
/// both directions ended without a failure of their own.
pub proof fn cancellation_hides_no_failure(
    exchange: ExchangeView,
    received: Result<ReceiveEnd, Error>,
    sent: Result<(), Error>,
    aborted: bool,
)
    requires
        exchange.wf(),
        conclusion(exchange, received, sent, aborted) matches Err(error) && is_canceled(error),
    ensures
        received matches Err(error) ==> is_canceled(error) && (sent matches Err(cause)
            ==> is_canceled(cause)),
        received matches Ok(ReceiveEnd::Complete) ==> (sent matches Err(cause) && is_canceled(
            cause,
        )),
        !(received matches Ok(ReceiveEnd::Abandoned)),
{
}

/// The error that a failed exchange ends with, and the same one for an observer
/// that still awaits the response.
pub fn report_failure(error: Error, observed: bool) -> (result: (Error, Option<Error>))
    ensures
        result.0 == error,
        result.1 == (if observed {
            Some(error)
        } else {
            None
        }),
{
    if observed {
        let (driver, observer) = error.split();
        (driver, Some(observer))
    } else {
        (error, None)
    }
}

/// What a connection does after an exchange.
#[derive(Clone, Copy, Debug, PartialEq, Eq, Structural)]
pub enum Next {
    /// Hand the transport over, with the input that is left.
    Handoff(UpgradeKind),
    /// Shut the transport down.
    Shutdown,
    /// Let the next request in.
    Release,
}

/// What a connection does after an exchange. Input that is left cannot belong to
/// a later response, because no other request was sent: only a handoff passes it
/// on.
pub fn after_exchange(outcome: Outcome, leftover: bool, stopping: bool) -> (result: Result<
    Next,
    Error,
>)
    ensures
        result == (match outcome {
            Outcome::Handoff(kind) => Ok(Next::Handoff(kind)),
            Outcome::Close => Ok(Next::Shutdown),
            Outcome::Reusable => if leftover {
                Err(
                    exchange::plain_error(
                        ErrorKind::InvalidMessage,
                        "unsolicited data after completed HTTP response",
                    ),
                )
            } else if stopping {
                Ok(Next::Shutdown)
            } else {
                Ok(Next::Release)
            },
            Outcome::Active => Err(
                exchange::plain_error(ErrorKind::Internal, "unsettled client exchange"),
            ),
        }),
{
    match outcome {
        Outcome::Handoff(kind) => Ok(Next::Handoff(kind)),
        Outcome::Close => Ok(Next::Shutdown),
        Outcome::Reusable => {
            if leftover {
                return Err(
                    Error::new(
                        ErrorKind::InvalidMessage,
                        "unsolicited data after completed HTTP response",
                    ),
                );
            }
            if stopping {
                Ok(Next::Shutdown)
            } else {
                Ok(Next::Release)
            }
        },
        Outcome::Active => Err(Error::new(ErrorKind::Internal, "unsettled client exchange")),
    }
}

} // verus!
