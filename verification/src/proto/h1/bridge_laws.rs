//! What holds of bodies on their way between frames and bytes.

use crate::body::frame::{Frame, Kind};
use crate::body::incoming::{Incoming, IncomingData};
use crate::body::pipe::{DemandError, OfferError, Rendezvous};
use crate::body::{Buffer, TrailerHint};
use crate::error::{Error, ErrorKind, Payload, Source};
use crate::io::recv::{ReadStatus, RecvBuffer};
use crate::outside::io;
use crate::outside::octets;
use crate::proto::h1::bridge::{
    self, BodyReceiver, BodySender, ReceiveAction, ReceiveEnd, SendAction, SendBodyError,
    SendStats, Told,
};
use crate::proto::h1::decode::{DecodeError, DecodeOutcome, DecoderState};
use crate::proto::h1::encode::{BodyEncoder, BodyState, DataFraming, EncodeError, Memory};
use crate::proto::h1::BodyMode;
use bytes::Bytes;
use vstd::prelude::*;

verus! {

/// A received body is announced as it is framed: it is open unless it is known to be
/// empty, its length is exact where it was declared and unknown otherwise, and
/// trailers may follow chunks alone.
pub proof fn framing_announces_the_body(mode: BodyMode, body: Incoming)
    requires
        call_ensures(bridge::incoming, (mode,), body),
    ensures
        !body.open <==> mode == BodyMode::Empty || mode == BodyMode::Fixed(0),
        body.trailers == TrailerHint::MayHave <==> mode == BodyMode::Chunked,
        mode matches BodyMode::Fixed(length) ==> body.size.low() == length && body.size.high()
            == Some(length),
        mode == BodyMode::Empty ==> body.size.low() == 0 && body.size.high() == Some(0u64),
        mode == BodyMode::Chunked || mode == BodyMode::UntilEof ==> body.size.low() == 0
            && body.size.high() is None,
        !body.trailers_seen,
{
}

/// A failure of receiving is told to the body as it is told to the connection.
pub proof fn failures_reach_both_sides(error: Error, action: ReceiveAction)
    requires
        call_ensures(BodyReceiver::fail, (error,), action),
    ensures
        action matches ReceiveAction::End { end: ReceiveEnd::Failed(driver), told: Told::Fail(body) }
            && driver == error && body == error,
{
}

/// A look at the input uses up what it names, offers exactly the payload or the
/// trailers that it found, closes the body cleanly at its end alone and fails where
/// the framing does.
pub proof fn findings_are_acted_on(
    outcome: Result<DecodeOutcome, DecodeError>,
    buffer: &mut RecvBuffer,
    action: ReceiveAction,
)
    requires
        call_ensures(BodyReceiver::act, (outcome, buffer), action),
    ensures
        outcome matches Ok(DecodeOutcome::NeedMore { consumed }) ==> (consumed <= old(buffer)@.len()
            ==> action is Read && final(buffer)@ == old(buffer)@.skip(consumed as int)),
        outcome matches Ok(DecodeOutcome::Data { payload, consumed }) ==> (payload.start
            <= payload.end <= consumed && consumed <= old(buffer)@.len() ==> (
        action matches ReceiveAction::Offer(frame) && (frame.kind matches Kind::Data(data)
            && data@.len() == payload.end - payload.start && (forall|i: int|
            0 <= i < data@.len() ==> #[trigger] data@[i] == old(buffer)@[payload.start + i])))
            && final(buffer)@ == old(buffer)@.skip(consumed as int)),
        outcome matches Ok(DecodeOutcome::Trailers { trailers, consumed }) ==> (consumed <= old(
            buffer
        )@.len() ==> (action matches ReceiveAction::Offer(frame) && frame.kind
            == Kind::<IncomingData>::Trailers(trailers)) && final(buffer)@ == old(buffer)@.skip(
            consumed as int,
        )),
        outcome matches Ok(DecodeOutcome::End { consumed }) ==> (consumed <= old(buffer)@.len()
            ==> (action matches ReceiveAction::End { end: ReceiveEnd::Complete, told: Told::Close })
            && final(buffer)@ == old(buffer)@.skip(consumed as int)),
        outcome matches Err(cause) ==> (action matches ReceiveAction::End {
            end: ReceiveEnd::Failed(error),
            told: Told::Fail(told),
        } && told == error && error.source == Some(Source::Decode(cause)) && (error.kind
            == ErrorKind::Limit <==> cause is Limit)) && final(buffer)@ == old(buffer)@,
        (action matches ReceiveAction::End { end: ReceiveEnd::Complete, .. }) ==> (
        outcome matches Ok(DecodeOutcome::End { .. })),
{
}

/// The payload bytes that a look at the input found.
pub open spec fn payload_found(outcome: DecodeOutcome) -> int {
    match outcome {
        DecodeOutcome::Data { payload, .. } => if payload.start <= payload.end {
            payload.end - payload.start
        } else {
            0
        },
        _ => 0,
    }
}

/// The bytes that a look at the input uses up.
pub open spec fn bytes_used(outcome: DecodeOutcome) -> int {
    match outcome {
        DecodeOutcome::NeedMore { consumed } => consumed as int,
        DecodeOutcome::Data { consumed, .. } => consumed as int,
        DecodeOutcome::Trailers { consumed, .. } => consumed as int,
        DecodeOutcome::End { consumed } => consumed as int,
    }
}

/// A consumer that drains is charged with every byte that is used up, and with the
/// payload among them; where either is more than is left, nothing is used up and the
/// body is told that its limit is exceeded. One that does not drain is never charged.
pub proof fn drained_bytes_are_charged<W>(
    outcome: Result<DecodeOutcome, DecodeError>,
    buffer: &mut RecvBuffer,
    pipe: &mut Rendezvous<Frame<IncomingData>, Error, W>,
    action: ReceiveAction,
)
    requires
        call_ensures(BodyReceiver::act_charged::<W>, (outcome, buffer, pipe), action),
    ensures
        old(pipe).drain_remaining is None ==> final(pipe).drain_remaining is None,
        outcome is Err ==> final(pipe).drain_remaining == old(pipe).drain_remaining,
        outcome matches Ok(found) ==> (old(pipe).drain_remaining matches Some((wire, data)) ==> (
        if bytes_used(found) <= wire && payload_found(found) <= data {
            final(pipe).drain_remaining matches Some((wire_left, data_left)) && wire_left == wire
                - bytes_used(found) && data_left == data - payload_found(found)
        } else {
            final(pipe).drain_remaining == Some((wire, data)) && final(buffer)@ == old(buffer)@
                && (action matches ReceiveAction::End {
                end: ReceiveEnd::Abandoned,
                told: Told::Fail(error),
            } && error.kind == ErrorKind::Limit)
        })),
        final(pipe).state == old(pipe).state,
        final(pipe).finished == old(pipe).finished,
        final(pipe).producer_waker == old(pipe).producer_waker,
        final(pipe).consumer_waker == old(pipe).consumer_waker,
{
}

/// A body that nobody wants any more is abandoned without a word, and one whose wait
/// was canceled fails as canceled; neither uses up input.
pub proof fn unwanted_body_is_left<W>(
    receiver: &mut BodyReceiver,
    buffer: &mut RecvBuffer,
    demand: Option<Result<(), DemandError>>,
    pipe: &mut Rendezvous<Frame<IncomingData>, Error, W>,
    action: ReceiveAction,
)
    requires
        call_ensures(BodyReceiver::demanded::<W>, (receiver, buffer, demand, pipe), action),
        demand matches Some(answer) ==> answer is Err,
    ensures
        demand is Some ==> (action matches ReceiveAction::End {
            end: ReceiveEnd::Abandoned,
            told: Told::Nothing,
        }),
        demand is None ==> (action matches ReceiveAction::End {
            end: ReceiveEnd::Failed(error),
            told: Told::Fail(told),
        } && told == error && error.kind == ErrorKind::Canceled),
        *final(buffer) == *old(buffer),
        *final(receiver) == *old(receiver),
        *final(pipe) == *old(pipe),
{
}

/// Another round starts unless the body has come to its end, which closes it.
pub proof fn rounds_go_on_to_the_end(receiver: BodyReceiver, action: ReceiveAction)
    requires
        call_ensures(BodyReceiver::start, (&receiver,), action),
    ensures
        (action matches ReceiveAction::End { end: ReceiveEnd::Complete, told: Told::Close })
            <==> receiver.decoder.position() == DecoderState::Empty || receiver.decoder.position()
            == DecoderState::Done || receiver.decoder.position() == (DecoderState::Fixed {
            remaining: 0,
        }),
        !(action is Demand) ==> (action matches ReceiveAction::End {
            end: ReceiveEnd::Complete,
            told: Told::Close,
        }),
{
}

/// The end of the input is remembered; a failed read fails the body, and one that was
/// abandoned meanwhile ends whatever the read brought.
pub proof fn reads_are_followed_up(
    receiver: &mut BodyReceiver,
    result: Result<ReadStatus, Error>,
    abandoned: bool,
    action: ReceiveAction,
)
    requires
        call_ensures(BodyReceiver::read_completed, (receiver, result, abandoned), action),
    ensures
        abandoned ==> (action matches ReceiveAction::End {
            end: ReceiveEnd::Abandoned,
            told: Told::Nothing,
        }) && final(receiver).eof == old(receiver).eof,
        !abandoned ==> (result matches Ok(status) ==> (final(receiver).eof <==> old(receiver).eof
            || status == ReadStatus::Eof) && !(action is Offer) && !(action is Read)),
        !abandoned ==> (result matches Err(cause) ==> (action matches ReceiveAction::End {
            end: ReceiveEnd::Failed(error),
            told: Told::Fail(told),
        } && error == cause && told == cause)),
        final(receiver).decoder == old(receiver).decoder,
{
}

/// A frame that was taken leads to another round; one that its body left ends
/// receiving, as abandoned where the body went and as a failure where it was closed.
pub proof fn offers_are_followed_up(
    receiver: BodyReceiver,
    offer: Option<Result<(), OfferError<Frame<IncomingData>>>>,
    action: ReceiveAction,
    start: ReceiveAction,
)
    requires
        call_ensures(BodyReceiver::offered, (&receiver, offer), action),
        call_ensures(BodyReceiver::start, (&receiver,), start),
    ensures
        (offer matches Some(Ok(_))) ==> action == start,
        (offer matches Some(Err(OfferError::Abandoned(_)))) ==> (action matches ReceiveAction::End {
            end: ReceiveEnd::Abandoned,
            told: Told::Nothing,
        }),
        (offer matches Some(Err(OfferError::Closed(_)))) ==> (action matches ReceiveAction::End {
            end: ReceiveEnd::Failed(error),
            told: Told::Nothing,
        } && error.kind == ErrorKind::Closed),
        offer is None ==> (action matches ReceiveAction::End {
            end: ReceiveEnd::Failed(error),
            told: Told::Fail(told),
        } && told == error && error.kind == ErrorKind::Canceled),
{
}

/// Sending starts with output that may wait, and nothing counted.
pub proof fn sending_starts_afresh(
    encoder: crate::proto::h1::encode::BodyEncoder,
    sender: BodySender,
    flushes: bool,
    receiver: BodyReceiver,
    decoder: crate::proto::h1::decode::BodyDecoder,
)
    requires
        call_ensures(BodySender::new, (encoder,), sender),
        call_ensures(BodySender::flushes, (&sender,), flushes),
        call_ensures(BodyReceiver::new, (decoder,), receiver),
    ensures
        sender.encoder == encoder,
        flushes,
        !sender.trailers_sent,
        sender.stats.wire_bytes == 0 && sender.stats.data_frames == 0 && sender.stats.trailer_frames
            == 0,
        receiver.decoder == decoder,
        !receiver.eof,
{
}

/// What is written is counted, up to what a count holds: a payload as a data frame,
/// trailers as a trailer frame, and the end of the body as neither. Bytes that were
/// written are to be flushed, and a failed write changes nothing.
pub proof fn written_bytes_are_counted<E>(
    sender: &mut BodySender,
    result: Result<usize, std::io::Error>,
    written: Result<(), SendBodyError<E>>,
    ending: &mut BodySender,
    trailers: Result<(), SendBodyError<E>>,
    last: BodySender,
    end: Result<SendStats, SendBodyError<E>>,
)
    requires
        call_ensures(BodySender::data_written::<E>, (sender, result), written),
        call_ensures(BodySender::trailers_written::<E>, (ending, result), trailers),
        call_ensures(BodySender::end_written::<E>, (last, result), end),
        old(sender).stats.wire_bytes + usize::MAX <= u64::MAX,
        old(sender).stats.data_frames < u64::MAX,
        old(sender).stats.trailer_frames < u64::MAX,
        *old(ending) == *old(sender),
        last == *old(sender),
    ensures
        result matches Ok(count) ==> {
            let before = old(sender).stats;
            let after = final(sender).stats;
            let behind = final(ending).stats;
            &&& written is Ok && trailers is Ok && end is Ok
            &&& after.wire_bytes == before.wire_bytes + count
            &&& after.data_frames == before.data_frames + 1
            &&& after.trailer_frames == before.trailer_frames
            &&& behind.wire_bytes == before.wire_bytes + count
            &&& behind.data_frames == before.data_frames
            &&& behind.trailer_frames == before.trailer_frames + 1
            &&& end->Ok_0.wire_bytes == before.wire_bytes + count
            &&& end->Ok_0.data_frames == before.data_frames
            &&& end->Ok_0.trailer_frames == before.trailer_frames
            &&& (final(sender).pending_output <==> old(sender).pending_output || count > 0)
            &&& (final(ending).pending_output <==> old(sender).pending_output || count > 0)
            &&& final(ending).trailers_sent
            &&& final(sender).trailers_sent == old(sender).trailers_sent
        },
        result matches Err(cause) ==> {
            &&& written == Err::<(), SendBodyError<E>>(SendBodyError::Io(cause))
            &&& trailers == Err::<(), SendBodyError<E>>(SendBodyError::Io(cause))
            &&& end == Err::<SendStats, SendBodyError<E>>(SendBodyError::Io(cause))
            &&& *final(sender) == *old(sender)
            &&& *final(ending) == *old(ending)
        },
        final(sender).encoder == old(sender).encoder,
        final(ending).encoder == old(ending).encoder,
{
}

/// After a flush nothing is left to flush; a failed one is reported and leaves it due.
pub proof fn flushes_are_followed_up<E>(
    sender: &mut BodySender,
    result: Result<(), std::io::Error>,
    flushed: Result<(), SendBodyError<E>>,
    due: bool,
)
    requires
        call_ensures(BodySender::flushed::<E>, (sender, result), flushed),
        call_ensures(BodySender::flushes, (&*final(sender),), due),
    ensures
        result is Ok ==> flushed is Ok && !due,
        result matches Err(cause) ==> flushed == Err::<(), SendBodyError<E>>(
            SendBodyError::Io(cause),
        ) && due == old(sender).pending_output,
        final(sender).stats == old(sender).stats,
        final(sender).encoder == old(sender).encoder,
        final(sender).trailers_sent == old(sender).trailers_sent,
{
}

/// A producer that fails, or whose wait is canceled, fails the body as it failed. Its
/// end is written once, and where trailers ended the body before, nothing is.
pub proof fn producers_are_followed_up<D: Buffer, E>(
    sender: &mut BodySender,
    next: Option<Result<Option<Frame<D>>, E>>,
    memory: Memory,
    action: SendAction<D, E>,
)
    requires
        call_ensures(BodySender::produced::<D, E>, (sender, next, memory), action),
    ensures
        next is None ==> action == SendAction::<D, E>::Fail(SendBodyError::Canceled),
        next matches Some(Err(cause)) ==> action == SendAction::<D, E>::Fail(
            SendBodyError::Body(cause),
        ),
        (next matches Some(Ok(None))) && old(sender).trailers_sent ==> action == SendAction::<
            D,
            E,
        >::Done(old(sender).stats),
        (next matches Some(Ok(None))) && !old(sender).trailers_sent ==> (action is WriteEnd
            || action is Fail) && (action is WriteEnd ==> final(sender).encoder.state
            == BodyState::Done),
        (next matches Some(Ok(Some(_)))) ==> !(action is Done) && !(action is WriteEnd),
        next matches Some(Ok(Some(frame))) ==> (frame.kind matches Kind::Data(data) ==> (
        action matches SendAction::WriteData { data: same, .. } ==> same == data) && (
        action matches SendAction::Refuse { data: same, .. } ==> same == data) && (
        action is WriteData || action is Refuse)),
        next matches Some(Ok(Some(frame))) ==> (frame.kind is Trailers ==> action is WriteTrailers
            || action is Fail),
        action is Done ==> (next matches Some(Ok(None))) && old(sender).trailers_sent,
        final(sender).stats == old(sender).stats,
        final(sender).trailers_sent == old(sender).trailers_sent,
        final(sender).pending_output == old(sender).pending_output,
{
}

/// A body that could not be sent fails as its body, as its framing, as its transport
/// or as canceled, and keeps the cause.
pub proof fn send_failures_are_told_apart(
    cause: SendBodyError<Payload>,
    failed: &'static str,
    canceled: &'static str,
    error: Error,
)
    requires
        call_ensures(bridge::map_send_error, (cause, failed, canceled), error),
    ensures
        cause matches SendBodyError::Body(payload) ==> error.kind == ErrorKind::Body
            && error.context == failed && (error.source matches Some(Source::Foreign(kept)) && *kept
            == payload),
        cause matches SendBodyError::Encode(refusal) ==> error.source == Some(
            Source::Encode(refusal),
        ) && (error.kind == ErrorKind::Limit <==> refusal == EncodeError::Limit) && (error.kind
            == ErrorKind::Unsupported <==> refusal == EncodeError::Unsupported),
        cause matches SendBodyError::Io(failure) ==> (error.source matches Some(Source::Io(kept))
            && *kept == failure) && (error.kind == ErrorKind::Canceled <==> io::cancels(failure)),
        cause is Canceled ==> error.kind == ErrorKind::Canceled && error.context == canceled
            && error.source is None,
{
}

/// What a producer gives is encoded as the encoder of its body says: a payload, its end
/// and its trailers alike, and what is refused is refused with its error.
pub proof fn produced_frames_are_encoded<D: Buffer, E>(
    sender: &mut BodySender,
    data: D,
    action: SendAction<D, E>,
    encoder: &mut BodyEncoder,
    length: usize,
    framing: Result<DataFraming, EncodeError>,
    ending: &mut BodySender,
    last: SendAction<D, E>,
    closer: &mut BodyEncoder,
    end: Result<Bytes, EncodeError>,
)
    requires
        call_ensures(
            BodySender::produced::<D, E>,
            (sender, Some(Ok(Some(Frame { kind: Kind::Data(data) }))), Memory::Granted),
            action,
        ),
        call_ensures(BodyEncoder::data, (encoder, length), framing),
        *old(encoder) == old(sender).encoder,
        length == data.contents().len(),
        call_ensures(
            BodySender::produced::<D, E>,
            (ending, Some(Ok(None)), Memory::Granted),
            last,
        ),
        call_ensures(BodyEncoder::finish, (closer,), end),
        *old(closer) == old(ending).encoder,
        !old(ending).trailers_sent,
    ensures
        final(sender).encoder == *final(encoder),
        action is WriteData <==> framing is Ok,
        framing matches Err(error) ==> action == (SendAction::<D, E>::Refuse { data, error }),
        action matches SendAction::WriteData { framing: around, data: same } ==> same == data && (
        framing matches Ok(wanted) && around.prefix.contents() == wanted.prefix.contents()
            && octets::octets(around.suffix) == octets::octets(wanted.suffix)),
        final(ending).encoder == *final(closer),
        last is WriteEnd <==> end is Ok,
        end matches Err(error) ==> last == SendAction::<D, E>::Fail(SendBodyError::Encode(error)),
        last matches SendAction::WriteEnd(bytes) ==> (end matches Ok(wanted) && octets::octets(bytes)
            == octets::octets(wanted)),
{
}

} // verus!
