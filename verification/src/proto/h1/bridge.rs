//! Between the frames of a body and the bytes of a connection.
//!
//! Waiting, reading and writing happen outside. Here stands what is done with
//! what they bring: each function takes the event that an activity waited for
//! and gives the action that comes next.

use crate::body::frame::{Frame, Kind};
use crate::body::incoming::{Incoming, IncomingData};
use crate::body::pipe::{self, DemandError, OfferError, Rendezvous};
use crate::body::size_hint::SizeHint;
use crate::body::{Buffer, TrailerHint};
use crate::error::{self, Error, ErrorKind, Payload};
use crate::io::recv::{self, ReadStatus, RecvBuffer};
use crate::outside::fields;
use crate::outside::io;
use crate::outside::octets;
use crate::outside::time;
use crate::proto::h1::decode::{
    self, BodyDecoder, DecodeError, DecodeOutcome, DecoderState,
};
use crate::proto::h1::encode::{
    self, BodyEncoder, BodyState, DataFraming, EncodeError, Memory,
};
use crate::proto::h1::BodyMode;
use bytes::Bytes;
use vstd::prelude::*;

verus! {

/// Whether a body is what the framing of a message announces. A message without
/// a body, or with one of no bytes, has ended from the start; only chunks may
/// have trailers behind them.
pub open spec fn announces(mode: BodyMode, body: Incoming) -> bool {
    &&& !body.trailers_seen
    &&& match mode {
        BodyMode::Empty => !body.open && body.size.low() == 0 && body.size.high() == Some(0u64)
            && body.trailers == TrailerHint::Absent,
        BodyMode::Fixed(length) => body.open == (length > 0) && body.size.low() == length
            && body.size.high() == Some(length) && body.trailers == TrailerHint::Absent,
        BodyMode::Chunked => body.open && body.size.low() == 0 && body.size.high() is None
            && body.trailers == TrailerHint::MayHave,
        BodyMode::UntilEof => body.open && body.size.low() == 0 && body.size.high() is None
            && body.trailers == TrailerHint::Absent,
    }
}

/// Derives body metadata from validated incoming wire framing alone. A body that
/// is open needs a rendezvous; chunks keep it for their end and for trailers.
pub fn incoming(mode: BodyMode) -> (result: Incoming)
    ensures
        announces(mode, result),
        time::nanos(result.drain.timeout) == 5_000_000_000,
        result.drain.wire_allowance == 65536,
{
    match mode {
        BodyMode::Empty => Incoming::empty(),
        BodyMode::Fixed(length) => if length == 0 {
            Incoming::empty()
        } else {
            Incoming::channel(SizeHint::with_exact(length), TrailerHint::Absent)
        },
        BodyMode::Chunked => Incoming::channel(SizeHint::new(), TrailerHint::MayHave),
        BodyMode::UntilEof => Incoming::channel(SizeHint::new(), TrailerHint::Absent),
    }
}

/// How receiving a body ended.
#[derive(Debug)]
pub enum ReceiveEnd {
    Complete,
    Abandoned,
    /// Shares the original cause with the error delivered to the body.
    Failed(Error),
}

/// What the body is told when receiving it ends.
#[derive(Debug)]
pub enum Told {
    Nothing,
    Close,
    Fail(Error),
}

/// What receiving a body does next.
#[derive(Debug)]
pub enum ReceiveAction {
    /// Wait until the body is asked for another frame.
    Demand,
    /// Read more input, unless the body is abandoned meanwhile.
    Read,
    /// Offer a frame to the body.
    Offer(Frame<IncomingData>),
    /// Tell the body, and stop.
    End { end: ReceiveEnd, told: Told },
}

/// Whether an action ends receiving with an error that the body is told too.
pub open spec fn fails(action: ReceiveAction, error: Error) -> bool {
    action == (ReceiveAction::End { end: ReceiveEnd::Failed(error), told: Told::Fail(error) })
}

/// Whether an action ends receiving because it was canceled.
pub open spec fn fails_canceled(action: ReceiveAction) -> bool {
    exists|cause: std::io::Error| #[trigger] io::cancels(cause) && fails(action, error::io_failure(cause))
}

/// Whether a body decoder has nothing more to look for.
pub open spec fn is_done(state: DecoderState) -> bool {
    state == DecoderState::Empty || state == DecoderState::Done || state == (DecoderState::Fixed {
        remaining: 0,
    })
}

/// Whether an action, and the input that is left, are what a look at the input
/// leads to.
pub open spec fn acts(
    outcome: Result<DecodeOutcome, DecodeError>,
    before: Seq<u8>,
    action: ReceiveAction,
    after: Seq<u8>,
) -> bool {
    match outcome {
        Err(error) => fails(action, error::decode_failure(error)) && after == before,
        Ok(DecodeOutcome::NeedMore { consumed }) => if consumed <= before.len() {
            action is Read && after == before.skip(consumed as int)
        } else {
            fails(action, recv::internal("receive buffer consumed beyond initialized bytes"))
                && after == before
        },
        Ok(DecodeOutcome::Data { payload, consumed }) => if !recv::range_refused(
            payload,
            consumed as nat,
            before.len(),
        ) {
            &&& action matches ReceiveAction::Offer(frame) && frame.kind matches Kind::Data(data)
                && data@ == before.subrange(payload.start as int, payload.end as int)
            &&& after == before.skip(consumed as int)
        } else {
            fails(action, recv::internal("decoder returned an invalid receive-buffer range"))
                && after == before
        },
        Ok(DecodeOutcome::Trailers { trailers, consumed }) => if consumed <= before.len() {
            &&& action matches ReceiveAction::Offer(frame) && frame.kind == Kind::<
                IncomingData,
            >::Trailers(trailers)
            &&& after == before.skip(consumed as int)
        } else {
            fails(action, recv::internal("receive buffer consumed beyond initialized bytes"))
                && after == before
        },
        Ok(DecodeOutcome::End { consumed }) => if consumed <= before.len() {
            action == (ReceiveAction::End { end: ReceiveEnd::Complete, told: Told::Close })
                && after == before.skip(consumed as int)
        } else {
            fails(action, recv::internal("receive buffer consumed beyond initialized bytes"))
                && after == before
        },
    }
}

/// The error of a body that is drained and brings more than its consumer accepts:
/// more payload, or more bytes around it.
pub open spec fn drain_exhausted(budget: Option<(u64, u64)>, payload: nat) -> Error {
    Error {
        kind: ErrorKind::Limit,
        context: if budget matches Some((_, data)) && payload > data {
            "body drain payload limit exceeded"
        } else {
            "body drain wire limit exceeded"
        },
        source: None,
    }
}

/// What a look at the input charges to a consumer that drains: the bytes that are
/// used up, and the payload among them.
pub open spec fn weight(outcome: DecodeOutcome) -> (nat, nat) {
    match outcome {
        DecodeOutcome::NeedMore { consumed } => (consumed as nat, 0),
        DecodeOutcome::Data { payload, consumed } => (
            consumed as nat,
            if payload.start <= payload.end {
                (payload.end - payload.start) as nat
            } else {
                0
            },
        ),
        DecodeOutcome::Trailers { consumed, .. } => (consumed as nat, 0),
        DecodeOutcome::End { consumed } => (consumed as nat, 0),
    }
}

/// Whether an action, the input that is left and what is left of a draining budget
/// are what a look at the input leads to. What is used up is charged first. Where
/// the budget does not suffice nothing is used up, the body is told so, and the
/// rest of it is abandoned.
pub open spec fn acts_charged(
    outcome: Result<DecodeOutcome, DecodeError>,
    before: Seq<u8>,
    action: ReceiveAction,
    after: Seq<u8>,
    budget: Option<(u64, u64)>,
    left: Option<(u64, u64)>,
) -> bool {
    match outcome {
        Err(_) => acts(outcome, before, action, after) && left == budget,
        Ok(found) => match pipe::charged(budget, weight(found).0, weight(found).1) {
            Some(remaining) => acts(outcome, before, action, after) && left == remaining,
            None => action == (ReceiveAction::End {
                end: ReceiveEnd::Abandoned,
                told: Told::Fail(drain_exhausted(budget, weight(found).1)),
            }) && after == before && left == budget,
        },
    }
}

/// Receives one body inside its connection.
#[derive(Debug)]
pub struct BodyReceiver {
    pub decoder: BodyDecoder,
    pub eof: bool,
}

impl BodyReceiver {
    pub fn new(decoder: BodyDecoder) -> (result: Self)
        ensures
            result == (BodyReceiver { decoder, eof: false }),
    {
        BodyReceiver { decoder, eof: false }
    }

    /// Ends receiving with an error, which the body is told too.
    pub fn fail(error: Error) -> (result: ReceiveAction)
        ensures
            fails(result, error),
    {
        let (body, driver) = error.split();
        ReceiveAction::End { end: ReceiveEnd::Failed(driver), told: Told::Fail(body) }
    }

    fn cancel() -> (result: ReceiveAction)
        ensures
            fails_canceled(result),
    {
        BodyReceiver::fail(Error::from_io(io::canceled()))
    }

    /// Starts another round. A body that has come to its end is closed without
    /// waiting to be asked.
    pub fn start(&self) -> (result: ReceiveAction)
        ensures
            result == (if is_done(self.decoder.position()) {
                ReceiveAction::End { end: ReceiveEnd::Complete, told: Told::Close }
            } else {
                ReceiveAction::Demand
            }),
    {
        if self.decoder.is_complete() {
            ReceiveAction::End { end: ReceiveEnd::Complete, told: Told::Close }
        } else {
            ReceiveAction::Demand
        }
    }

    /// Goes on once the body was asked for a frame, or could not be: no demand
    /// means that waiting was canceled. A consumer that drains is charged with what
    /// is used up of the input.
    pub fn demanded<W>(
        &mut self,
        buffer: &mut RecvBuffer,
        demand: Option<Result<(), DemandError>>,
        pipe: &mut Rendezvous<Frame<IncomingData>, Error, W>,
    ) -> (result: ReceiveAction)
        requires
            old(buffer).wf(),
        ensures
            final(buffer).wf(),
            final(buffer).same_limits(*old(buffer)),
            final(self).eof == old(self).eof,
            final(self).decoder.bounds() == old(self).decoder.bounds(),
            *final(pipe) == (Rendezvous {
                drain_remaining: final(pipe).drain_remaining,
                ..*old(pipe)
            }),
            !(demand matches Some(Ok(()))) ==> *final(pipe) == *old(pipe),
            match demand {
                None => fails_canceled(result) && *final(buffer) == *old(buffer) && *final(self)
                    == *old(self),
                Some(Err(_)) => result == (ReceiveAction::End {
                    end: ReceiveEnd::Abandoned,
                    told: Told::Nothing,
                }) && *final(buffer) == *old(buffer) && *final(self) == *old(self),
                Some(Ok(())) => exists|outcome: Result<DecodeOutcome, DecodeError>|
                    {
                        &&& #[trigger] decode::decodes(
                            old(self).decoder.position(),
                            old(self).decoder.bounds(),
                            old(buffer)@,
                            old(self).eof,
                            final(self).decoder.position(),
                            outcome,
                        )
                        &&& acts_charged(
                            outcome,
                            old(buffer)@,
                            result,
                            final(buffer)@,
                            old(pipe).drain_remaining,
                            final(pipe).drain_remaining,
                        )
                    },
            },
    {
        match demand {
            Some(Ok(())) => {},
            Some(Err(_)) => {
                return ReceiveAction::End { end: ReceiveEnd::Abandoned, told: Told::Nothing };
            },
            None => return BodyReceiver::cancel(),
        }
        let outcome = self.decoder.decode(buffer.bytes(), self.eof);
        BodyReceiver::act_charged(outcome, buffer, pipe)
    }

    /// Charges a consumer that drains with what a look at the input uses up, and
    /// does what it leads to, unless the budget does not suffice.
    pub fn act_charged<W>(
        outcome: Result<DecodeOutcome, DecodeError>,
        buffer: &mut RecvBuffer,
        pipe: &mut Rendezvous<Frame<IncomingData>, Error, W>,
    ) -> (result: ReceiveAction)
        requires
            old(buffer).wf(),
        ensures
            acts_charged(
                outcome,
                old(buffer)@,
                result,
                final(buffer)@,
                old(pipe).drain_remaining,
                final(pipe).drain_remaining,
            ),
            *final(pipe) == (Rendezvous {
                drain_remaining: final(pipe).drain_remaining,
                ..*old(pipe)
            }),
            final(buffer).wf(),
            final(buffer).same_limits(*old(buffer)),
    {
        let (bytes, length): (usize, usize) = match &outcome {
            Err(_) => return BodyReceiver::act(outcome, buffer),
            Ok(DecodeOutcome::NeedMore { consumed }) => (*consumed, 0),
            Ok(DecodeOutcome::Data { payload, consumed }) => if payload.start <= payload.end {
                (*consumed, payload.end - payload.start)
            } else {
                (*consumed, 0)
            },
            Ok(DecodeOutcome::Trailers { consumed, .. }) => (*consumed, 0),
            Ok(DecodeOutcome::End { consumed }) => (*consumed, 0),
        };
        if pipe.charge_drain(bytes, length) {
            BodyReceiver::act(outcome, buffer)
        } else {
            let payload_exceeds = match pipe.drain_remaining {
                Some((_, data)) => length as u64 > data,
                None => false,
            };
            let context = if payload_exceeds {
                "body drain payload limit exceeded"
            } else {
                "body drain wire limit exceeded"
            };
            ReceiveAction::End {
                end: ReceiveEnd::Abandoned,
                told: Told::Fail(Error::new(ErrorKind::Limit, context)),
            }
        }
    }

    /// Does what a look at the input leads to.
    pub fn act(outcome: Result<DecodeOutcome, DecodeError>, buffer: &mut RecvBuffer) -> (result:
        ReceiveAction)
        requires
            old(buffer).wf(),
        ensures
            acts(outcome, old(buffer)@, result, final(buffer)@),
            final(buffer).wf(),
            final(buffer).same_limits(*old(buffer)),
    {
        match outcome {
            Err(error) => BodyReceiver::fail(Error::from(error)),
            Ok(DecodeOutcome::NeedMore { consumed }) => match buffer.consume(consumed) {
                Ok(()) => ReceiveAction::Read,
                Err(error) => BodyReceiver::fail(error),
            },
            Ok(DecodeOutcome::Data { payload, consumed }) => match buffer.take_payload(
                payload,
                consumed,
            ) {
                Ok(data) => ReceiveAction::Offer(Frame::data(data)),
                Err(error) => BodyReceiver::fail(error),
            },
            Ok(DecodeOutcome::Trailers { trailers, consumed }) => match buffer.consume(consumed) {
                Ok(()) => ReceiveAction::Offer(Frame::trailers(trailers)),
                Err(error) => BodyReceiver::fail(error),
            },
            Ok(DecodeOutcome::End { consumed }) => match buffer.consume(consumed) {
                Ok(()) => ReceiveAction::End { end: ReceiveEnd::Complete, told: Told::Close },
                Err(error) => BodyReceiver::fail(error),
            },
        }
    }

    /// Goes on once a read has completed. A body that was abandoned meanwhile
    /// comes before whatever the read ended with.
    pub fn read_completed(&mut self, result: Result<ReadStatus, Error>, abandoned: bool) -> (action:
        ReceiveAction)
        ensures
            final(self).decoder == old(self).decoder,
            final(self).eof == (old(self).eof || (!abandoned && result == Ok::<ReadStatus, Error>(
                ReadStatus::Eof,
            ))),
            if abandoned {
                action == (ReceiveAction::End {
                    end: ReceiveEnd::Abandoned,
                    told: Told::Nothing,
                })
            } else {
                match result {
                    Err(error) => fails(action, error),
                    Ok(_) => action == (if is_done(old(self).decoder.position()) {
                        ReceiveAction::End { end: ReceiveEnd::Complete, told: Told::Close }
                    } else {
                        ReceiveAction::Demand
                    }),
                }
            },
    {
        if abandoned {
            return ReceiveAction::End { end: ReceiveEnd::Abandoned, told: Told::Nothing };
        }
        match result {
            Err(error) => return BodyReceiver::fail(error),
            Ok(ReadStatus::Eof) => {
                self.eof = true;
            },
            Ok(ReadStatus::Data(_)) => {},
        }
        self.start()
    }

    /// Goes on once a frame was offered: no answer means that waiting was
    /// canceled.
    pub fn offered(&self, offer: Option<Result<(), OfferError<Frame<IncomingData>>>>) -> (action:
        ReceiveAction)
        ensures
            match offer {
                None => fails_canceled(action),
                Some(Ok(())) => action == (if is_done(self.decoder.position()) {
                    ReceiveAction::End { end: ReceiveEnd::Complete, told: Told::Close }
                } else {
                    ReceiveAction::Demand
                }),
                Some(Err(OfferError::Abandoned(_))) => action == (ReceiveAction::End {
                    end: ReceiveEnd::Abandoned,
                    told: Told::Nothing,
                }),
                Some(Err(OfferError::Closed(_))) => action == (ReceiveAction::End {
                    end: ReceiveEnd::Failed(
                        Error {
                            kind: ErrorKind::Closed,
                            context: "body handoff closed",
                            source: None,
                        },
                    ),
                    told: Told::Nothing,
                }),
            },
    {
        match offer {
            Some(Ok(())) => self.start(),
            Some(Err(OfferError::Abandoned(_))) => ReceiveAction::End {
                end: ReceiveEnd::Abandoned,
                told: Told::Nothing,
            },
            Some(Err(OfferError::Closed(_))) => ReceiveAction::End {
                end: ReceiveEnd::Failed(Error::new(ErrorKind::Closed, "body handoff closed")),
                told: Told::Nothing,
            },
            None => BodyReceiver::cancel(),
        }
    }
}

/// The bytes that the first few of several looks at the input use up.
pub open spec fn used_up(befores: Seq<Seq<u8>>, afters: Seq<Seq<u8>>, count: nat) -> int
    decreases count,
{
    if count == 0 {
        0
    } else {
        used_up(befores, afters, (count - 1) as nat) + befores[count - 1].len() - afters[count
            - 1].len()
    }
}

/// The payload bytes that an action offers to the body.
pub open spec fn offered_bytes(action: ReceiveAction) -> nat {
    match action {
        ReceiveAction::Offer(frame) => match frame.kind {
            Kind::Data(data) => data@.len(),
            Kind::Trailers(_) => 0,
        },
        _ => 0,
    }
}

/// The payload bytes that the first few of several actions offer to the body.
pub open spec fn handed_out(actions: Seq<ReceiveAction>, count: nat) -> nat
    decreases count,
{
    if count == 0 {
        0
    } else {
        handed_out(actions, (count - 1) as nat) + offered_bytes(actions[count - 1])
    }
}

/// A body that is drained stays within its budget: whatever the looks at its input
/// lead to, and whatever is read between them, the wire bytes that they use up come
/// to no more than the payload limit and the allowance on top, and the payload that
/// they offer to no more than the limit.
pub proof fn drained_body_stays_within_budget(
    bytes: u64,
    wire_allowance: u64,
    outcomes: Seq<Result<DecodeOutcome, DecodeError>>,
    befores: Seq<Seq<u8>>,
    actions: Seq<ReceiveAction>,
    afters: Seq<Seq<u8>>,
    budgets: Seq<Option<(u64, u64)>>,
)
    requires
        budgets[0] == Some(pipe::granted(bytes, wire_allowance)),
        forall|i: int|
            0 <= i < outcomes.len() ==> acts_charged(
                #[trigger] outcomes[i],
                befores[i],
                actions[i],
                afters[i],
                budgets[i],
                budgets[i + 1],
            ),
    ensures
        used_up(befores, afters, outcomes.len()) <= bytes + wire_allowance,
        handed_out(actions, outcomes.len()) <= bytes,
        budgets[outcomes.len() as int] matches Some((wire, data)) && wire + used_up(
            befores,
            afters,
            outcomes.len(),
        ) <= pipe::granted(bytes, wire_allowance).0 && data + handed_out(actions, outcomes.len())
            <= bytes,
    decreases outcomes.len(),
{
    if outcomes.len() > 0 {
        let last: int = outcomes.len() - 1;
        let earlier = outcomes.drop_last();
        assert forall|i: int| 0 <= i < earlier.len() implies acts_charged(
            #[trigger] earlier[i],
            befores[i],
            actions[i],
            afters[i],
            budgets[i],
            budgets[i + 1],
        ) by {
            assert(earlier[i] == outcomes[i]);
        }
        drained_body_stays_within_budget(
            bytes,
            wire_allowance,
            earlier,
            befores,
            actions,
            afters,
            budgets,
        );
        assert(acts_charged(
            outcomes[last],
            befores[last],
            actions[last],
            afters[last],
            budgets[last],
            budgets[last + 1],
        ));
    }
}

/// A body is closed cleanly only behind the end that its framing names: whatever
/// a look at the input leads to, a clean close leaves a decoder that is done.
pub proof fn clean_close_means_framed_end(
    state: DecoderState,
    limits: decode::DecodeLimits,
    input: Seq<u8>,
    eof: bool,
    next: DecoderState,
    outcome: Result<DecodeOutcome, DecodeError>,
    action: ReceiveAction,
    after: Seq<u8>,
    budget: Option<(u64, u64)>,
    left: Option<(u64, u64)>,
)
    requires
        decode::step(state, limits, input, eof).allows(next, outcome),
        acts_charged(outcome, input, action, after, budget, left),
        action == (ReceiveAction::End { end: ReceiveEnd::Complete, told: Told::Close }),
    ensures
        is_done(next),
{
    assert(decode::result_view(outcome) matches Ok(decode::OutcomeView::End { .. }));
    end_leaves_done(state, limits, input, eof);
}

/// Whether a step reports the end of the body.
spec fn reports_end(step: decode::Step) -> bool {
    step.outcome matches Ok(decode::OutcomeView::End { .. })
}

proof fn trailers_report_no_end(
    limits: decode::DecodeLimits,
    scanned: nat,
    input: Seq<u8>,
    cursor: nat,
    eof: bool,
)
    ensures
        !reports_end(decode::trailers_step(limits, scanned, input, cursor, eof)),
{
}

proof fn lines_report_no_end(
    limits: decode::DecodeLimits,
    scanned: nat,
    input: Seq<u8>,
    cursor: nat,
    eof: bool,
)
    ensures
        !reports_end(decode::size_step(limits, scanned, input, cursor, eof)),
{
    let available = input.skip(cursor as int);
    if let Ok(Some((size, length))) = decode::chunk_line(
        available,
        scanned,
        limits.max_chunk_line_bytes as nat,
    ) {
        trailers_report_no_end(limits, 0, input, cursor + length, eof);
        assert(!reports_end(decode::data_step(size, input, cursor + length, eof)));
    }
}

proof fn end_leaves_done(
    state: DecoderState,
    limits: decode::DecodeLimits,
    input: Seq<u8>,
    eof: bool,
)
    ensures
        reports_end(decode::step(state, limits, input, eof)) ==> is_done(
            decode::step(state, limits, input, eof).state,
        ),
{
    if let DecoderState::Chunked(chunk) = state {
        match chunk {
            decode::ChunkState::Size { scanned } => {
                lines_report_no_end(limits, scanned as nat, input, 0, eof);
            },
            decode::ChunkState::Data { .. } => {},
            decode::ChunkState::DataCrlf => {
                lines_report_no_end(limits, 0, input, 2, eof);
            },
            decode::ChunkState::Trailers { scanned } => {
                trailers_report_no_end(limits, scanned as nat, input, 0, eof);
            },
        }
    }
}

/// How much of a body was sent.
#[derive(Clone, Copy, Debug, PartialEq, Eq, Structural)]
pub struct SendStats {
    pub wire_bytes: u64,
    pub data_frames: u64,
    pub trailer_frames: u64,
}

/// Why a body could not be sent.
#[derive(Debug)]
pub enum SendBodyError<E> {
    Body(E),
    Encode(EncodeError),
    /// Includes confirmed cancellation and keeps the original I/O error.
    Io(std::io::Error),
    /// Cancellation before the producer yielded a frame.
    Canceled,
}

/// What sending a body does next.
#[derive(Debug)]
pub enum SendAction<D, E> {
    /// Write a payload with its framing around it, and recycle it.
    WriteData { framing: DataFraming, data: D },
    /// Write the trailer section, and await that the producer ends.
    WriteTrailers(Bytes),
    /// Write the end of the body.
    WriteEnd(Bytes),
    /// Everything is written.
    Done(SendStats),
    /// Recycle a payload that may not be sent, and stop.
    Refuse { data: D, error: EncodeError },
    /// Stop.
    Fail(SendBodyError<E>),
}

pub open spec fn saturating(left: u64, right: nat) -> u64 {
    if left + right <= u64::MAX {
        (left + right) as u64
    } else {
        u64::MAX
    }
}

/// Sends one body inside its connection.
#[derive(Debug)]
pub struct BodySender {
    pub encoder: BodyEncoder,
    pub stats: SendStats,
    pub trailers_sent: bool,
    /// Whether output may still wait in a buffer of the transport.
    pub pending_output: bool,
}

impl BodySender {
    /// A head may have been queued before.
    pub fn new(encoder: BodyEncoder) -> (result: Self)
        ensures
            result == (BodySender {
                encoder,
                stats: SendStats { wire_bytes: 0, data_frames: 0, trailer_frames: 0 },
                trailers_sent: false,
                pending_output: true,
            }),
    {
        BodySender {
            encoder,
            stats: SendStats { wire_bytes: 0, data_frames: 0, trailer_frames: 0 },
            trailers_sent: false,
            pending_output: true,
        }
    }

    /// Whether output is to be flushed before waiting for a producer that is not
    /// ready.
    pub fn flushes(&self) -> (result: bool)
        ensures
            result == self.pending_output,
    {
        self.pending_output
    }

    /// Goes on once output was flushed.
    pub fn flushed<E>(&mut self, result: Result<(), std::io::Error>) -> (flushed: Result<
        (),
        SendBodyError<E>,
    >)
        ensures
            match result {
                Ok(()) => flushed is Ok && *final(self) == (BodySender {
                    pending_output: false,
                    ..*old(self)
                }),
                Err(error) => flushed == Err::<(), SendBodyError<E>>(SendBodyError::Io(error))
                    && *final(self) == *old(self),
            },
    {
        match result {
            Ok(()) => {
                self.pending_output = false;
                Ok(())
            },
            Err(error) => Err(SendBodyError::Io(error)),
        }
    }

    /// Goes on once the producer gave a frame, its end or an error: no answer
    /// means that waiting was canceled. A payload that may not be sent is handed
    /// back for its producer. The text of trailers is held in this memory.
    pub fn produced<D: Buffer, E>(
        &mut self,
        next: Option<Result<Option<Frame<D>>, E>>,
        memory: Memory,
    ) -> (action: SendAction<D, E>)
        ensures
            exists|granted: bool| #[trigger]
                memory.may_answer(granted) && sends(
                    *old(self),
                    next,
                    action,
                    *final(self),
                    granted,
                ),
    {
        assert(memory.may_answer(true) || memory.may_answer(false));
        let frame = match next {
            None => return SendAction::Fail(SendBodyError::Canceled),
            Some(Err(error)) => return SendAction::Fail(SendBodyError::Body(error)),
            Some(Ok(frame)) => frame,
        };
        let frame = match frame {
            Some(frame) => frame,
            None => {
                if self.trailers_sent {
                    return SendAction::Done(self.stats);
                }
                return match self.encoder.finish() {
                    Ok(bytes) => SendAction::WriteEnd(bytes),
                    Err(error) => SendAction::Fail(SendBodyError::Encode(error)),
                };
            },
        };
        match frame.kind {
            Kind::Data(data) => match self.encoder.data(data.as_init().len()) {
                Ok(framing) => SendAction::WriteData { framing, data },
                Err(error) => SendAction::Refuse { data, error },
            },
            Kind::Trailers(trailers) => match self.encoder.trailers_with_memory(
                &trailers,
                memory,
            ) {
                Ok(bytes) => SendAction::WriteTrailers(bytes),
                Err(error) => SendAction::Fail(SendBodyError::Encode(error)),
            },
        }
    }

    /// Goes on once a payload was written.
    pub fn data_written<E>(&mut self, result: Result<usize, std::io::Error>) -> (written: Result<
        (),
        SendBodyError<E>,
    >)
        ensures
            match result {
                Ok(count) => written is Ok && *final(self) == (BodySender {
                    pending_output: old(self).pending_output || count != 0,
                    stats: SendStats {
                        wire_bytes: saturating(old(self).stats.wire_bytes, count as nat),
                        data_frames: saturating(old(self).stats.data_frames, 1),
                        ..old(self).stats
                    },
                    ..*old(self)
                }),
                Err(error) => written == Err::<(), SendBodyError<E>>(SendBodyError::Io(error))
                    && *final(self) == *old(self),
            },
    {
        match result {
            Ok(count) => {
                self.pending_output = self.pending_output || count != 0;
                self.stats.wire_bytes = self.stats.wire_bytes.saturating_add(count as u64);
                self.stats.data_frames = self.stats.data_frames.saturating_add(1);
                Ok(())
            },
            Err(error) => Err(SendBodyError::Io(error)),
        }
    }

    /// Goes on once the trailer section was written.
    pub fn trailers_written<E>(&mut self, result: Result<usize, std::io::Error>) -> (written:
        Result<(), SendBodyError<E>>)
        ensures
            match result {
                Ok(count) => written is Ok && *final(self) == (BodySender {
                    pending_output: old(self).pending_output || count != 0,
                    trailers_sent: true,
                    stats: SendStats {
                        wire_bytes: saturating(old(self).stats.wire_bytes, count as nat),
                        trailer_frames: saturating(old(self).stats.trailer_frames, 1),
                        ..old(self).stats
                    },
                    ..*old(self)
                }),
                Err(error) => written == Err::<(), SendBodyError<E>>(SendBodyError::Io(error))
                    && *final(self) == *old(self),
            },
    {
        match result {
            Ok(count) => {
                self.pending_output = self.pending_output || count != 0;
                self.stats.wire_bytes = self.stats.wire_bytes.saturating_add(count as u64);
                self.stats.trailer_frames = self.stats.trailer_frames.saturating_add(1);
                self.trailers_sent = true;
                Ok(())
            },
            Err(error) => Err(SendBodyError::Io(error)),
        }
    }

    /// Ends once the end of the body was written.
    pub fn end_written<E>(self, result: Result<usize, std::io::Error>) -> (written: Result<
        SendStats,
        SendBodyError<E>,
    >)
        ensures
            match result {
                Ok(count) => written == Ok::<SendStats, SendBodyError<E>>(
                    SendStats {
                        wire_bytes: saturating(self.stats.wire_bytes, count as nat),
                        ..self.stats
                    },
                ),
                Err(error) => written == Err::<SendStats, SendBodyError<E>>(
                    SendBodyError::Io(error),
                ),
            },
    {
        match result {
            Ok(count) => {
                let mut stats = self.stats;
                stats.wire_bytes = stats.wire_bytes.saturating_add(count as u64);
                Ok(stats)
            },
            Err(error) => Err(SendBodyError::Io(error)),
        }
    }
}

/// Whether an action is what sending does with what the producer gave, where
/// `granted` says whether there is memory for the text of trailers.
pub open spec fn sends<D: Buffer, E>(
    before: BodySender,
    next: Option<Result<Option<Frame<D>>, E>>,
    action: SendAction<D, E>,
    after: BodySender,
    granted: bool,
) -> bool {
    &&& after.stats == before.stats
    &&& after.trailers_sent == before.trailers_sent
    &&& after.pending_output == before.pending_output
    &&& match next {
        None => action == SendAction::<D, E>::Fail(SendBodyError::Canceled) && after == before,
        Some(Err(error)) => action == SendAction::<D, E>::Fail(SendBodyError::Body(error)) && after
            == before,
        Some(Ok(None)) => if before.trailers_sent {
            action == SendAction::<D, E>::Done(before.stats) && after == before
        } else {
            match encode::end_conflict(before.encoder) {
                None => {
                    &&& action matches SendAction::WriteEnd(bytes) && octets::octets(bytes)
                        == encode::end_text(before.encoder.state)
                    &&& after.encoder == (BodyEncoder { state: BodyState::Done, ..before.encoder })
                },
                Some(error) => action == SendAction::<D, E>::Fail(SendBodyError::Encode(error))
                    && after.encoder == encode::refused(before.encoder, error),
            }
        },
        Some(Ok(Some(frame))) => match frame.kind {
            Kind::Data(data) => sends_data(before.encoder, data, action, after.encoder),
            Kind::Trailers(trailers) => sends_trailers(
                before.encoder,
                fields::entries(trailers),
                action,
                after.encoder,
                granted,
            ),
        },
    }
}

pub open spec fn sends_data<D: Buffer, E>(
    before: BodyEncoder,
    payload: D,
    action: SendAction<D, E>,
    after: BodyEncoder,
) -> bool {
    let length = payload.contents().len();
    match encode::data_conflict(before, length) {
        Some(error) => action == (SendAction::<D, E>::Refuse { data: payload, error }) && after
            == encode::refused(before, error),
        None => {
            &&& after == encode::after_data(before, length)
            &&& action matches SendAction::WriteData { framing, data } && data == payload
                && framing.prefix.contents() == (if before.state == BodyState::Chunked && length
                > 0 {
                encode::chunk_line_text(length)
            } else {
                Seq::empty()
            }) && octets::octets(framing.suffix) == (if before.state == BodyState::Chunked && length
                > 0 {
                seq![crate::ascii::CR, crate::ascii::LF]
            } else {
                Seq::empty()
            })
        },
    }
}

pub open spec fn sends_trailers<D, E>(
    before: BodyEncoder,
    trailers: Seq<(Seq<u8>, Seq<Seq<u8>>)>,
    action: SendAction<D, E>,
    after: BodyEncoder,
    granted: bool,
) -> bool {
    match action {
        SendAction::WriteTrailers(bytes) => encode::trailers_ended(
            before,
            trailers,
            Ok(bytes),
            after,
            granted,
        ),
        SendAction::Fail(SendBodyError::Encode(error)) => encode::trailers_ended(
            before,
            trailers,
            Err(error),
            after,
            granted,
        ),
        _ => false,
    }
}

/// Trailers end a body only with its producer: once their text was given out, a
/// producer that fails is reported, another frame is refused, and nothing but its
/// end is a success.
pub proof fn trailers_await_the_end<D: Buffer, E>(
    before: BodySender,
    trailers: Frame<D>,
    text: Bytes,
    given: BodySender,
    behind: BodySender,
    next: Result<Option<Frame<D>>, E>,
    action: SendAction<D, E>,
    after: BodySender,
    granted: bool,
    granted_later: bool,
)
    requires
        trailers.kind is Trailers,
        sends::<D, E>(
            before,
            Some(Ok(Some(trailers))),
            SendAction::WriteTrailers(text),
            given,
            granted,
        ),
        behind.encoder == given.encoder,
        behind.trailers_sent,
        sends(behind, Some(next), action, after, granted_later),
    ensures
        octets::octets(text) == encode::trailer_text(
            fields::entries(trailers.kind->Trailers_0),
        ),
        match next {
            Err(error) => action == SendAction::<D, E>::Fail(SendBodyError::Body(error)),
            Ok(Some(frame)) => match frame.kind {
                Kind::Data(data) => action == (SendAction::<D, E>::Refuse {
                    data,
                    error: EncodeError::FrameAfterEnd,
                }),
                Kind::Trailers(_) => action == SendAction::<D, E>::Fail(
                    SendBodyError::Encode(EncodeError::FrameAfterEnd),
                ),
            },
            Ok(None) => action == SendAction::<D, E>::Done(behind.stats),
        },
{
}

/// The error of a message whose body could not be sent.
pub open spec fn send_failure(
    error: SendBodyError<Payload>,
    failed: &'static str,
    canceled: &'static str,
) -> Error {
    match error {
        SendBodyError::Body(payload) => Error {
            kind: ErrorKind::Body,
            context: failed,
            source: Some(error::Source::Foreign(std::rc::Rc::new(payload))),
        },
        SendBodyError::Encode(error) => error::encode_failure(error),
        SendBodyError::Io(error) => error::io_failure(error),
        SendBodyError::Canceled => Error {
            kind: ErrorKind::Canceled,
            context: canceled,
            source: None,
        },
    }
}

/// The error of a message whose body could not be sent: `failed` says that the
/// body failed, `canceled` that producing it was canceled.
pub fn map_send_error(
    error: SendBodyError<Payload>,
    failed: &'static str,
    canceled: &'static str,
) -> (result: Error)
    ensures
        result == send_failure(error, failed, canceled),
{
    match error {
        SendBodyError::Body(payload) => Error::with_payload(ErrorKind::Body, failed, payload),
        SendBodyError::Encode(error) => Error::from(error),
        SendBodyError::Io(error) => Error::from(error),
        SendBodyError::Canceled => Error::new(ErrorKind::Canceled, canceled),
    }
}

} // verus!
