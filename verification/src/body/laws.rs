//! What holds of bodies, whatever brings them and whoever reads them.

use crate::body::collect::{self, AggregateError, CollectError, Collected, Collector};
use crate::body::combinator::{self, Either, MapError};
use crate::body::frame::{Frame, Kind};
use crate::body::incoming::{DrainConfig, Edge, Incoming, IncomingData, Leased, ManagedLeasePermit, Taken};
use crate::body::pipe::{
    DemandError, OfferError, Rendezvous, State, TakeError, Wait,
};
use crate::body::simple::Full;
use crate::body::size_hint::SizeHint;
use crate::body::stream::{BodyDataStream, BodyStream, DataItem, StreamBody};
use crate::body::{Buffer, TrailerHint};
use crate::error::{Error, ErrorKind};
use http::HeaderMap;
use std::ops::Range;
use vstd::prelude::*;

verus! {

/// Bounds are taken exactly where they are in order, and give themselves back; an
/// exact length is one that both bounds agree on.
pub proof fn bounds_are_kept(
    lower: u64,
    upper: Option<u64>,
    result: Result<SizeHint, Error>,
    hint: SizeHint,
    exact: Option<u64>,
)
    requires
        call_ensures(SizeHint::with_bounds, (lower, upper), result),
        call_ensures(SizeHint::exact, (&hint,), exact),
    ensures
        (upper matches Some(bound) && bound < lower) <==> result is Err,
        result matches Ok(made) ==> made.low() == lower && made.high() == upper,
        result matches Err(error) ==> error.kind == ErrorKind::LocalMessage,
        exact is Some <==> (hint.high() matches Some(bound) && bound == hint.low()),
        exact matches Some(length) ==> length == hint.low(),
{
}

/// A frame gives back what it was made of, as what it was made.
pub proof fn frames_give_back<D>(
    payload: D,
    fields: HeaderMap,
    data: Frame<D>,
    trailers: Frame<D>,
    payload_of_data: Result<D, Frame<D>>,
    payload_of_trailers: Result<D, Frame<D>>,
    fields_of_data: Result<HeaderMap, Frame<D>>,
    fields_of_trailers: Result<HeaderMap, Frame<D>>,
)
    requires
        call_ensures(Frame::<D>::data, (payload,), data),
        call_ensures(Frame::<D>::trailers, (fields,), trailers),
        call_ensures(Frame::<D>::into_data, (data,), payload_of_data),
        call_ensures(Frame::<D>::into_data, (trailers,), payload_of_trailers),
        call_ensures(Frame::<D>::into_trailers, (data,), fields_of_data),
        call_ensures(Frame::<D>::into_trailers, (trailers,), fields_of_trailers),
    ensures
        payload_of_data == Ok::<D, Frame<D>>(payload),
        payload_of_trailers == Err::<D, Frame<D>>(trailers),
        fields_of_data == Err::<HeaderMap, Frame<D>>(data),
        fields_of_trailers == Ok::<HeaderMap, Frame<D>>(fields),
{
}

/// A payload view is the bytes between its ends: slices and advances see the bytes
/// that they name, and leave the view that they were taken of.
pub proof fn views_see_their_bytes(
    data: &IncomingData,
    range: Range<usize>,
    part: IncomingData,
    view: &mut IncomingData,
    count: usize,
    length: usize,
    empty: bool,
)
    requires
        call_ensures(IncomingData::slice, (data, range), part),
        call_ensures(IncomingData::advance, (view, count), ()),
        call_ensures(IncomingData::len, (data,), length),
        call_ensures(IncomingData::is_empty, (data,), empty),
        range.start <= range.end <= data@.len(),
        count <= old(view)@.len(),
    ensures
        part@.len() == range.end - range.start,
        forall|i: int| 0 <= i < part@.len() ==> #[trigger] part@[i] == data@[range.start + i],
        final(view)@.len() == old(view)@.len() - count,
        forall|i: int|
            0 <= i < final(view)@.len() ==> #[trigger] final(view)@[i] == old(view)@[count + i],
        length == data@.len(),
        empty <==> data@.len() == 0,
{
}

/// A range goes from its first byte to its last, however its ends are written.
pub proof fn ranges_hold_their_ends(start: Edge, end: Edge, length: usize, range: Range<usize>)
    requires
        call_ensures(crate::body::incoming::normalize_range, (start, end, length), range),
        !(start matches Edge::Excluded(before) && before == usize::MAX),
        !(end matches Edge::Included(last) && last == usize::MAX),
    ensures
        start matches Edge::Included(first) ==> range.start == first,
        start matches Edge::Excluded(before) ==> range.start == before + 1,
        start == Edge::Unbounded ==> range.start == 0,
        end matches Edge::Included(last) ==> range.end == last + 1,
        end matches Edge::Excluded(behind) ==> range.end == behind,
        end == Edge::Unbounded ==> range.end == length,
{
}

/// A connection hands out one leased buffer at a time, within the bytes that were
/// received into it.
pub proof fn leases_are_handed_out_singly(
    buffer: Leased,
    range: Range<usize>,
    permit: &mut ManagedLeasePermit,
    result: Result<IncomingData, Error>,
)
    requires
        call_ensures(IncomingData::from_managed, (buffer, range, permit), result),
    ensures
        result is Ok <==> range.start <= range.end <= buffer.bytes().len() && !old(permit).held,
        result is Ok ==> final(permit).held,
        result is Err ==> final(permit).held == old(permit).held,
        result matches Ok(data) ==> data.managed() && data@.len() == range.end - range.start && (
        forall|i: int|
            0 <= i < data@.len() ==> #[trigger] data@[i] == buffer.bytes()[range.start + i]),
        result matches Err(error) ==> error.kind == ErrorKind::Internal,
{
}

/// A received body gives what it is brought as long as that keeps to its framing:
/// payload within the announced length and before trailers, and trailers once, only
/// where they were announced and behind the whole payload. It ends well only behind
/// the whole payload. Everything but a frame ends it, and nothing follows the end.
pub proof fn received_body_keeps_to_its_framing(
    body: &mut Incoming,
    taken: Taken,
    result: Result<Option<Frame<IncomingData>>, Error>,
)
    requires
        call_ensures(Incoming::next_frame, (body, taken), result),
    ensures
        !old(body).open ==> result == Ok::<Option<Frame<IncomingData>>, Error>(None)
            && !final(body).open,
        old(body).open && !(result matches Ok(Some(_))) ==> !final(body).open
            && final(body).size.low() == 0 && final(body).size.high() == Some(0u64),
        result matches Ok(Some(frame)) ==> old(body).open && final(body).open && taken == Ok::<
            Option<Frame<IncomingData>>,
            TakeError<Error>,
        >(Some(frame)) && !old(body).trailers_seen,
        result matches Ok(Some(frame)) ==> (frame.kind matches Kind::Data(data) ==> {
            &&& old(body).size.high() matches Some(upper) ==> data@.len() <= upper
                && final(body).size.high() == Some((upper - data@.len()) as u64)
            &&& old(body).size.high() is None ==> final(body).size.high() is None
            &&& final(body).size.low() == (if data@.len() < old(body).size.low() {
                old(body).size.low() - data@.len()
            } else {
                0
            })
            &&& !final(body).trailers_seen
        }),
        result matches Ok(Some(frame)) ==> (frame.kind is Trailers ==> old(body).trailers
            == TrailerHint::MayHave && old(body).size.low() == 0 && final(body).trailers_seen),
        old(body).open && taken is Ok && taken->Ok_0 is None ==> (result is Ok <==> old(
            body
        ).size.low() == 0) && (result matches Err(error) ==> error.kind
            == ErrorKind::InvalidMessage),
        old(body).open && taken is Ok && taken->Ok_0 is Some && result is Err
            ==> result->Err_0.kind == ErrorKind::InvalidMessage,
        old(body).open && (taken->Ok_0 matches Some(frame) && frame.kind matches Kind::Data(data)
            && taken is Ok && !old(body).trailers_seen && (old(body).size.high() matches Some(upper)
            ==> data@.len() <= upper)) ==> result is Ok,
        old(body).open && (taken->Ok_0 matches Some(frame) && frame.kind is Trailers && taken is Ok
            && !old(body).trailers_seen && old(body).trailers == TrailerHint::MayHave && old(
            body
        ).size.low() == 0) ==> result is Ok,
        old(body).open && taken is Err ==> (result matches Err(error) && (taken matches Err(
            TakeError::Failed(cause),
        ) ==> error == cause) && (taken matches Err(TakeError::Disconnected) ==> error.kind
            == ErrorKind::Closed)),
{
}

/// Draining counts payload against its limit and passes over trailers; a deadline
/// that elapsed decides.
pub proof fn draining_counts_payload(
    remaining: &mut u64,
    frame: Frame<IncomingData>,
    result: Result<(), Error>,
    end: Result<(), Error>,
    elapsed: bool,
    drained: Result<(), Error>,
)
    requires
        call_ensures(Incoming::discard, (remaining, frame), result),
        call_ensures(Incoming::drain_result, (end, elapsed), drained),
    ensures
        frame.kind matches Kind::Data(data) ==> (result is Ok <==> data@.len() <= *old(remaining)),
        frame.kind matches Kind::Data(data) ==> (result is Ok ==> *final(remaining) == *old(
            remaining
        ) - data@.len()),
        frame.kind is Trailers ==> result is Ok && *final(remaining) == *old(remaining),
        result matches Err(error) ==> error.kind == ErrorKind::Limit && *final(remaining) == *old(
            remaining
        ),
        elapsed ==> (drained matches Err(error) && error.kind == ErrorKind::Timeout),
        !elapsed ==> drained == end,
{
}

/// A consumer is given the item that waits, the end or the failure of its producer,
/// once each; it waits where there is nothing yet, and wakes whoever waits for it.
pub proof fn consumer_is_given_what_waits<T, E, W>(
    pipe: &mut Rendezvous<T, E, W>,
    waker: W,
    result: (Wait<Result<Option<T>, TakeError<E>>>, Option<W>),
)
    requires
        call_ensures(Rendezvous::<T, E, W>::take, (pipe, waker), result),
        !(old(pipe).state is Abandoned),
    ensures
        old(pipe).state matches State::Offered(item) ==> result.0 == Wait::Ready(
            Ok::<Option<T>, TakeError<E>>(Some(item)),
        ) && final(pipe).state is Idle,
        old(pipe).state is Idle || old(pipe).state is Demanded ==> result.0 is Pending && final(
            pipe
        ).state is Demanded && final(pipe).consumer_waker == Some(waker),
        old(pipe).state is Closed ==> result.0 == Wait::Ready(
            Ok::<Option<T>, TakeError<E>>(None),
        ) && final(pipe).state is Closed,
        old(pipe).state matches State::Failed(error) ==> result.0 == Wait::Ready(
            Err::<Option<T>, TakeError<E>>(TakeError::Failed(error)),
        ) && final(pipe).state is Closed,
        old(pipe).state is Disconnected ==> result.0 == Wait::Ready(
            Err::<Option<T>, TakeError<E>>(TakeError::Disconnected),
        ) && final(pipe).state is Closed,
        old(pipe).state is Offered || old(pipe).state is Idle || old(pipe).state is Demanded
            ==> result.1 == old(pipe).producer_waker && final(pipe).producer_waker is None,
        final(pipe).drain_remaining == old(pipe).drain_remaining,
        final(pipe).finished == old(pipe).finished,
{
}

/// A producer may go on once its item is wanted; it is told where nobody wants one
/// any more, and why.
pub proof fn producer_learns_of_demand<T, E, W>(
    pipe: &mut Rendezvous<T, E, W>,
    waker: W,
    result: Wait<Result<(), DemandError>>,
)
    requires
        call_ensures(Rendezvous::<T, E, W>::demand, (pipe, waker), result),
    ensures
        result is Pending <==> old(pipe).state is Idle,
        result is Pending ==> final(pipe).producer_waker == Some(waker),
        result == Wait::Ready(Ok::<(), DemandError>(())) <==> old(pipe).state is Demanded || old(
            pipe
        ).state is Offered,
        result == Wait::Ready(Err::<(), DemandError>(DemandError::Abandoned)) <==> old(
            pipe
        ).state is Abandoned,
        final(pipe).state == old(pipe).state,
        final(pipe).consumer_waker == old(pipe).consumer_waker,
{
}

/// An item that is offered waits for its consumer, or comes back; it is lost to
/// neither.
pub proof fn offers_wait_or_come_back<T, E, W>(
    pipe: &mut Rendezvous<T, E, W>,
    item: T,
    waker: W,
    result: (Wait<Result<(), OfferError<T>>>, Option<W>),
)
    requires
        call_ensures(Rendezvous::<T, E, W>::offer, (pipe, item, waker), result),
        !(old(pipe).state is Offered),
        old(pipe).wf(),
    ensures
        old(pipe).state is Idle || old(pipe).state is Demanded ==> result.0 is Pending && final(
            pipe
        ).state == State::<T, E>::Offered(item) && result.1 == old(pipe).consumer_waker && final(
            pipe
        ).producer_waker == Some(waker),
        old(pipe).state is Abandoned ==> result.0 == Wait::Ready(
            Err::<(), OfferError<T>>(OfferError::Abandoned(item)),
        ) && *final(pipe) == *old(pipe),
        old(pipe).state is Closed || old(pipe).state is Disconnected || old(pipe).state is Failed
            ==> result.0 == Wait::Ready(Err::<(), OfferError<T>>(OfferError::Closed(item)))
            && *final(pipe) == *old(pipe),
{
}

/// An offer is over once its item was taken, and comes back where its consumer went
/// away without it. One that is withdrawn comes back where it was not taken.
pub proof fn offers_end<T, E, W>(
    pipe: &mut Rendezvous<T, E, W>,
    waker: W,
    result: Wait<Result<(), OfferError<T>>>,
    other: &mut Rendezvous<T, E, W>,
    withdrawn: (Option<T>, Option<W>),
)
    requires
        call_ensures(Rendezvous::<T, E, W>::offered, (pipe, waker), result),
        call_ensures(Rendezvous::<T, E, W>::withdraw, (other,), withdrawn),
    ensures
        old(pipe).state is Offered ==> result is Pending && final(pipe).state == old(pipe).state,
        old(pipe).state matches State::Abandoned(Some(item)) ==> result == Wait::Ready(
            Err::<(), OfferError<T>>(OfferError::Abandoned(item)),
        ) && final(pipe).state == State::<T, E>::Abandoned(None),
        !(old(pipe).state is Offered) && !(old(pipe).state matches State::Abandoned(Some(_)))
            ==> result == Wait::Ready(Ok::<(), OfferError<T>>(())),
        old(other).state matches State::Offered(item) ==> withdrawn.0 == Some(item) && final(
            other
        ).state is Idle && withdrawn.1 == old(other).consumer_waker,
        old(other).state matches State::Abandoned(item) ==> withdrawn.0 == item && final(
            other
        ).state == State::<T, E>::Abandoned(None),
        !(old(other).state is Offered) && !(old(other).state is Abandoned) ==> withdrawn.0 is None
            && final(other).state == old(other).state,
{
}

/// The first end of a producer counts where its consumer is still there, and wakes
/// it: a clean end, a failure and a producer that just goes away stay apart.
pub proof fn first_end_counts<T, E, W>(
    closed: &mut Rendezvous<T, E, W>,
    failed: &mut Rendezvous<T, E, W>,
    gone: &mut Rendezvous<T, E, W>,
    error: E,
    close: Option<W>,
    fail: Option<W>,
    disconnect: Option<W>,
)
    requires
        call_ensures(Rendezvous::<T, E, W>::close, (closed,), close),
        call_ensures(Rendezvous::<T, E, W>::fail, (failed, error), fail),
        call_ensures(Rendezvous::<T, E, W>::disconnect, (gone,), disconnect),
    ensures
        !old(closed).finished && (old(closed).state is Idle || old(closed).state is Demanded)
            ==> final(closed).state is Closed && close == old(closed).consumer_waker,
        !old(failed).finished && (old(failed).state is Idle || old(failed).state is Demanded)
            ==> final(failed).state == State::<T, E>::Failed(error) && fail == old(
            failed
        ).consumer_waker,
        !old(gone).finished && (old(gone).state is Idle || old(gone).state is Demanded) ==> final(
            gone
        ).state is Disconnected && disconnect == old(gone).consumer_waker,
        old(closed).finished ==> final(closed).state == old(closed).state && close is None,
        old(failed).finished ==> final(failed).state == old(failed).state && fail is None,
        old(gone).finished ==> final(gone).state == old(gone).state && disconnect is None,
        old(closed).state is Abandoned ==> final(closed).state == old(closed).state,
        old(failed).state is Abandoned ==> final(failed).state == old(failed).state,
        final(closed).finished && final(failed).finished && final(gone).finished,
{
}

/// A consumer that goes away leaves the item that waited for it to its producer,
/// which is woken; behind the end it leaves nothing.
pub proof fn abandoned_item_is_kept<T, E, W>(
    pipe: &mut Rendezvous<T, E, W>,
    woken: Option<W>,
    known: bool,
)
    requires
        call_ensures(Rendezvous::<T, E, W>::abandon, (pipe,), woken),
        call_ensures(Rendezvous::<T, E, W>::is_abandoned, (&*final(pipe),), known),
        old(pipe).wf(),
    ensures
        old(pipe).state matches State::Offered(item) ==> final(pipe).state
            == State::<T, E>::Abandoned(Some(item)),
        old(pipe).state is Idle || old(pipe).state is Demanded ==> final(pipe).state
            == State::<T, E>::Abandoned(None),
        old(pipe).state is Closed || old(pipe).state is Failed || old(pipe).state is Disconnected
            ==> final(pipe).state == old(pipe).state && woken is None && !known,
        old(pipe).state is Offered || old(pipe).state is Idle || old(pipe).state is Demanded
            ==> woken == old(pipe).producer_waker && known,
{
}

/// A stream as a body, and a body as a stream, hand on frames and failures as they
/// are and end with everything else, for good. The payloads of a body are those of
/// its frames, without the trailers.
pub proof fn streams_hand_on<S, B, D, E>(
    source: &mut StreamBody<S>,
    item: Option<Result<Frame<D>, E>>,
    frame: Result<Option<Frame<D>>, E>,
    sink: &mut BodyStream<B>,
    produced: Result<Option<Frame<D>>, E>,
    streamed: Option<Result<Frame<D>, E>>,
    payloads: &mut BodyDataStream<B>,
    payload: DataItem<D, E>,
)
    requires
        call_ensures(StreamBody::<S>::next_frame::<D, E>, (source, item), frame),
        call_ensures(BodyStream::<B>::next::<D, E>, (sink, produced), streamed),
        call_ensures(BodyDataStream::<B>::next::<D, E>, (payloads, produced), payload),
    ensures
        old(source).done ==> frame == Ok::<Option<Frame<D>>, E>(None) && final(source).done,
        !old(source).done ==> (item matches Some(Ok(given)) ==> frame == Ok::<
            Option<Frame<D>>,
            E,
        >(Some(given)) && !final(source).done),
        !old(source).done ==> (item matches Some(Err(error)) ==> frame == Err::<
            Option<Frame<D>>,
            E,
        >(error) && final(source).done),
        !old(source).done && item is None ==> frame == Ok::<Option<Frame<D>>, E>(None) && final(
            source
        ).done,
        old(sink).done ==> streamed is None && final(sink).done,
        !old(sink).done ==> (produced matches Ok(Some(given)) ==> streamed == Some(
            Ok::<Frame<D>, E>(given),
        ) && !final(sink).done),
        !old(sink).done ==> (produced matches Err(error) ==> streamed == Some(
            Err::<Frame<D>, E>(error),
        ) && final(sink).done),
        !old(sink).done && (produced matches Ok(None)) ==> streamed is None && final(sink).done,
        old(payloads).frames.done ==> payload is End,
        !old(payloads).frames.done ==> (produced matches Ok(Some(given)) ==> match given.kind {
            Kind::Data(data) => payload == DataItem::<D, E>::Data(data),
            Kind::Trailers(_) => payload is Again,
        }),
        !old(payloads).frames.done ==> (produced matches Err(error) ==> payload == DataItem::<
            D,
            E,
        >::Failed(error)),
        !old(payloads).frames.done && (produced matches Ok(None)) ==> payload is End,
        final(payloads).frames.done <==> old(payloads).frames.done || !(produced matches Ok(
            Some(_),
        )),
{
}

/// A body of one buffer yields it once, and announces it until then.
pub proof fn full_body_yields_once<D: Buffer>(
    body: &mut Full<D>,
    first: Option<Frame<D>>,
    hint: SizeHint,
    ended: bool,
)
    requires
        call_ensures(Full::<D>::next_frame, (body,), first),
        call_ensures(Full::<D>::size_hint, (&*final(body),), hint),
        call_ensures(Full::<D>::is_end_stream, (&*final(body),), ended),
    ensures
        old(body).pending() matches Some(data) ==> (first matches Some(frame) && frame.kind
            == Kind::Data(data)),
        old(body).pending() is None ==> first is None,
        ended,
        hint.low() == 0 && hint.high() == Some(0u64),
{
}

/// Marking where a frame comes from changes neither its payload nor its trailers.
pub proof fn marks_keep_frames<A, B, E, F>(
    result: Result<Option<Frame<A>>, E>,
    marked: Result<Option<Frame<Either<A, B>>>, Either<E, F>>,
    other: Result<Option<Frame<B>>, F>,
    named: Result<Option<Frame<Either<A, B>>>, Either<E, F>>,
)
    requires
        call_ensures(combinator::from_left::<A, B, E, F>, (result,), marked),
        call_ensures(combinator::from_right::<A, B, E, F>, (other,), named),
    ensures
        result matches Ok(Some(frame)) ==> (marked matches Ok(Some(same)) && match frame.kind {
            Kind::Data(data) => same.kind == Kind::Data(Either::<A, B>::Left(data)),
            Kind::Trailers(fields) => same.kind == Kind::<Either<A, B>>::Trailers(fields),
        }),
        result matches Ok(None) ==> marked matches Ok(None),
        result matches Err(error) ==> (marked matches Err(cause) && cause == Either::<
            E,
            F,
        >::Left(error)),
        other matches Ok(Some(frame)) ==> (named matches Ok(Some(same)) && match frame.kind {
            Kind::Data(data) => same.kind == Kind::Data(Either::<A, B>::Right(data)),
            Kind::Trailers(fields) => same.kind == Kind::<Either<A, B>>::Trailers(fields),
        }),
        other matches Ok(None) ==> named matches Ok(None),
        other matches Err(error) ==> (named matches Err(cause) && cause == Either::<
            E,
            F,
        >::Right(error)),
{
}

/// Lengths add up, within the limit and within what a length can be.
pub proof fn lengths_add_up(
    current: usize,
    additional: usize,
    limit: usize,
    result: Result<usize, AggregateError>,
)
    requires
        call_ensures(collect::checked_total, (current, additional, limit), result),
    ensures
        result is Ok <==> current + additional <= limit,
        result matches Ok(total) ==> total == current + additional,
        result == Err::<usize, _>(AggregateError::Overflow) <==> current + additional > usize::MAX,
        result matches Err(AggregateError::Limit { limit: named }) ==> named == limit,
{
}

/// Storage grows to twice its size at least, to what is needed, and never beyond the
/// limit, so that gathering a body moves it a bounded number of times.
pub proof fn storage_doubles_within_the_limit(
    capacity: usize,
    length: usize,
    limit: usize,
    result: usize,
)
    requires
        call_ensures(collect::grown, (capacity, length, limit), result),
        length <= limit,
    ensures
        length <= result <= limit,
        result < limit ==> result >= 2 * capacity,
        result == length || result <= 2 * capacity,
        2 * capacity <= limit ==> result >= 2 * capacity,
{
}

/// What is collected is every payload, in order, up to the limit and to what the
/// body announced, and the trailers behind them where those were announced. A
/// payload comes back to its producer either way.
pub proof fn frames_are_collected<D: Buffer, E>(
    collector: &mut Collector,
    frame: Frame<D>,
    result: (Option<D>, Result<(), CollectError<E>>),
)
    requires
        call_ensures(Collector::take::<D, E>, (collector, frame), result),
        old(collector).wf(),
    ensures
        frame.kind matches Kind::Data(data) ==> {
            let total = old(collector).data@.len() + data.contents().len();
            &&& result.0 == Some(data)
            &&& final(collector).trailers == old(collector).trailers
            &&& result.1 is Ok ==> final(collector).data@ == old(collector).data@ + data.contents()
                && total <= old(collector).max_bytes && old(collector).trailers is None && (old(
                collector
            ).hint.high() matches Some(upper) ==> total <= upper)
            &&& result.1 is Err ==> final(collector).data@ == old(collector).data@
            &&& (old(collector).trailers is Some <==> (result.1 matches Err(
                CollectError::InvalidSequence,
            )))
            &&& (old(collector).trailers is None && total > old(collector).max_bytes && total
                <= usize::MAX ==> (result.1 matches Err(CollectError::LimitExceeded { limit })
                && limit == old(collector).max_bytes))
            &&& (old(collector).trailers is None && total <= old(collector).max_bytes && (old(
                collector
            ).hint.high() matches Some(upper) && total > upper) ==> (result.1 matches Err(
                CollectError::LengthMismatch,
            )))
            &&& (old(collector).trailers is None && total <= old(collector).max_bytes && (old(
                collector
            ).hint.high() matches Some(upper) ==> total <= upper) ==> result.1 is Ok || (result.1
                matches Err(CollectError::Allocation(_))))
        },
        frame.kind matches Kind::Trailers(fields) ==> {
            &&& result.0 is None
            &&& final(collector).data@ == old(collector).data@
            &&& result.1 is Ok <==> old(collector).trailers is None && old(collector).trailer_hint
                == TrailerHint::MayHave
            &&& result.1 is Ok ==> final(collector).trailers == Some(fields)
            &&& result.1 is Err ==> final(collector).trailers == old(collector).trailers
        },
{
}

/// A body is collected whole or not at all: it is refused where it announces more
/// than the limit, and where it ends before what it announced.
pub proof fn collected_body_is_whole<E>(
    hint: SizeHint,
    trailers: TrailerHint,
    limit: usize,
    started: Result<Collector, CollectError<E>>,
    collector: Collector,
    result: Result<Collected, CollectError<E>>,
)
    requires
        call_ensures(Collector::new::<E>, (hint, trailers, limit), started),
        call_ensures(Collector::finish::<E>, (collector,), result),
    ensures
        hint.low() > limit ==> (started matches Err(CollectError::LimitExceeded { limit: named })
            && named == limit),
        hint.low() <= limit ==> started is Ok || started matches Err(CollectError::Allocation(_)),
        started matches Ok(made) ==> made.data@.len() == 0 && made.trailers is None
            && made.max_bytes == limit && made.hint == hint && made.trailer_hint == trailers,
        result is Ok <==> collector.data@.len() >= collector.hint.low(),
        result matches Ok(body) ==> body.payload() == collector.data@ && body.fields()
            == collector.trailers,
        result matches Err(error) ==> error is LengthMismatch,
{
}

/// Bounds are what they were made of, and a fresh hint promises nothing.
pub proof fn bounds_are_given_back(
    bytes: u64,
    exact: SizeHint,
    unknown: SizeHint,
    hint: SizeHint,
    lower: u64,
    upper: Option<u64>,
)
    requires
        call_ensures(SizeHint::with_exact, (bytes,), exact),
        call_ensures(SizeHint::new, (), unknown),
        call_ensures(SizeHint::lower, (&hint,), lower),
        call_ensures(SizeHint::upper, (&hint,), upper),
    ensures
        exact.low() == bytes && exact.high() == Some(bytes),
        unknown.low() == 0 && unknown.high() is None,
        lower == hint.low(),
        upper == hint.high(),
        upper matches Some(bound) ==> lower <= bound,
{
}

/// A frame shows what it is made of, as what it was made.
pub proof fn frames_show_their_kind<D>(
    frame: Frame<D>,
    data: Option<&D>,
    trailers: Option<&HeaderMap>,
)
    requires
        call_ensures(Frame::<D>::data_ref, (&frame,), data),
        call_ensures(Frame::<D>::trailers_ref, (&frame,), trailers),
    ensures
        data is Some <==> frame.kind is Data,
        trailers is Some <==> frame.kind is Trailers,
        data matches Some(payload) ==> frame.kind == Kind::Data(*payload),
        trailers matches Some(fields) ==> frame.kind == Kind::<D>::Trailers(*fields),
{
}

/// Mapping a frame changes its payload alone, and by nothing but the mapping.
pub proof fn mapping_keeps_trailers<D, T, F: FnOnce(D) -> T>(frame: Frame<D>, map: F, mapped: Frame<T>)
    requires
        call_ensures(Frame::<D>::map_data::<T, F>, (frame, map), mapped),
    ensures
        frame.kind matches Kind::Trailers(fields) ==> mapped.kind == Kind::<T>::Trailers(fields),
        frame.kind matches Kind::Data(data) ==> (mapped.kind matches Kind::Data(other)
            && call_ensures(map, (data,), other)),
{
}

/// A payload view holds the bytes that it was made of, and so does a copy of it.
pub proof fn views_keep_their_bytes(
    bytes: bytes::Bytes,
    made: IncomingData,
    data: IncomingData,
    copy: IncomingData,
    slice: &[u8],
    managed: bool,
)
    requires
        call_ensures(IncomingData::from_bytes, (bytes,), made),
        call_ensures(<IncomingData as Clone>::clone, (&data,), copy),
        call_ensures(IncomingData::as_ref, (&data,), slice),
        call_ensures(IncomingData::is_managed, (&data,), managed),
    ensures
        made@ == crate::outside::octets::octets(bytes),
        !made.managed(),
        copy@ == data@,
        copy.managed() == data.managed(),
        slice@ == data@,
        managed == data.managed(),
{
}

/// A permit that is released can be used again.
pub proof fn released_permits_are_free(
    fresh: ManagedLeasePermit,
    permit: &mut ManagedLeasePermit,
    held: bool,
)
    requires
        call_ensures(ManagedLeasePermit::new, (), fresh),
        call_ensures(ManagedLeasePermit::release, (permit,), ()),
        call_ensures(ManagedLeasePermit::is_held, (&*final(permit),), held),
    ensures
        !fresh.held,
        !held,
{
}

/// A received body starts as it is announced, and tells what it still expects.
pub proof fn received_body_is_announced(
    none: Incoming,
    size: SizeHint,
    trailers: TrailerHint,
    some: Incoming,
    config: DrainConfig,
    configured: Incoming,
    body: Incoming,
    hint: SizeHint,
    expected: TrailerHint,
    ended: bool,
)
    requires
        call_ensures(Incoming::empty, (), none),
        call_ensures(Incoming::channel, (size, trailers), some),
        call_ensures(Incoming::with_drain_config, (some, config), configured),
        call_ensures(Incoming::size_hint, (&body,), hint),
        call_ensures(Incoming::trailer_hint, (&body,), expected),
        call_ensures(Incoming::is_end_stream, (&body,), ended),
    ensures
        !none.open && none.size.low() == 0 && none.size.high() == Some(0u64) && none.trailers
            == TrailerHint::Absent && !none.trailers_seen,
        some.open && some.size == size && some.trailers == trailers && !some.trailers_seen,
        configured.open && configured.size == size && configured.trailers == trailers
            && !configured.trailers_seen && configured.drain == config,
        hint == body.size,
        expected == body.trailers,
        ended <==> !body.open,
{
}

/// A frame is taken into account exactly where a reader would be given it, and one that
/// is refused leaves the account as it was. Behind trailers nothing is expected.
pub proof fn observed_frames_are_accounted_for(
    body: &mut Incoming,
    frame: Frame<IncomingData>,
    observed: Result<(), Error>,
    same: &mut Incoming,
    given: Result<Option<Frame<IncomingData>>, Error>,
)
    requires
        call_ensures(Incoming::observe, (body, &frame), observed),
        call_ensures(Incoming::next_frame, (same, Ok(Some(frame))), given),
        *old(same) == *old(body),
        old(body).open,
    ensures
        observed is Ok <==> given is Ok,
        observed matches Err(error) ==> given == Err::<Option<Frame<IncomingData>>, Error>(error)
            && error.kind == ErrorKind::InvalidMessage,
        observed is Err ==> *final(body) == *old(body),
        observed is Ok ==> final(body).open && final(body).drain == old(body).drain,
        observed is Ok && frame.kind is Trailers ==> final(body).trailers_seen && final(
            body
        ).trailers == TrailerHint::Absent && final(body).size.low() == 0 && final(body).size.high()
            == Some(0u64),
        observed is Ok && frame.kind is Data ==> final(body).trailers_seen == old(
            body
        ).trailers_seen && final(body).trailers == old(body).trailers,
        final(same).drain == old(same).drain,
{
}

/// Draining has a deadline where its timeout can become one; otherwise the mistake is
/// its caller's.
pub proof fn draining_has_a_deadline(
    sum: Option<std::time::Instant>,
    deadline: Result<std::time::Instant, Error>,
    body: Incoming,
    drained: Result<std::time::Instant, Error>,
)
    requires
        call_ensures(Incoming::drain_deadline, (sum,), deadline),
        call_ensures(Incoming::drained_by, (&body,), drained),
    ensures
        sum matches Some(instant) ==> deadline == Ok::<std::time::Instant, Error>(instant),
        sum is None ==> (deadline matches Err(error) && error.kind == ErrorKind::LocalMessage),
        drained matches Ok(instant) ==> crate::io::deadline::reaches(body.drain.timeout, instant),
        drained matches Err(error) ==> error.kind == ErrorKind::LocalMessage
            && crate::outside::time::nanos(body.drain.timeout) > 0,
{
}

/// A rendezvous starts empty and open; the consumer that drains is granted as much
/// payload as it accepts, and as many wire bytes with its allowance on top.
pub proof fn rendezvous_starts_afresh<T, E, W>(
    fresh: Rendezvous<T, E, W>,
    pipe: &mut Rendezvous<T, E, W>,
    bytes: usize,
    payload: usize,
    taken: bool,
)
    requires
        call_ensures(Rendezvous::<T, E, W>::new, (), fresh),
        call_ensures(Rendezvous::<T, E, W>::charge_drain, (pipe, bytes, payload), taken),
    ensures
        fresh.state is Idle && fresh.producer_waker is None && fresh.consumer_waker is None
            && fresh.drain_remaining is None && !fresh.consumed && !fresh.finished,
        old(pipe).drain_remaining is None ==> taken && final(pipe).drain_remaining is None,
        old(pipe).drain_remaining matches Some((wire, data)) ==> (taken <==> bytes <= wire
            && payload <= data),
        old(pipe).drain_remaining matches Some((wire, data)) ==> (taken ==> final(
            pipe
        ).drain_remaining == Some(((wire - bytes) as u64, (data - payload) as u64))),
        !taken ==> final(pipe).drain_remaining == old(pipe).drain_remaining,
        final(pipe).state == old(pipe).state,
{
}

/// Whoever no longer waits is not woken, and nothing else changes.
pub proof fn absent_sides_are_not_woken<T, E, W>(
    producing: &mut Rendezvous<T, E, W>,
    consuming: &mut Rendezvous<T, E, W>,
    watching: &mut Rendezvous<T, E, W>,
    waker: W,
    gone: Wait<()>,
)
    requires
        call_ensures(Rendezvous::<T, E, W>::producer_left, (producing,), ()),
        call_ensures(Rendezvous::<T, E, W>::consumer_left, (consuming,), ()),
        call_ensures(Rendezvous::<T, E, W>::abandoned, (watching, waker), gone),
    ensures
        final(producing).producer_waker is None && final(producing).state == old(producing).state
            && final(producing).consumer_waker == old(producing).consumer_waker,
        final(consuming).consumer_waker is None && final(consuming).state == old(consuming).state
            && final(consuming).producer_waker == old(consuming).producer_waker,
        gone is Ready <==> old(watching).state is Abandoned,
        gone is Pending ==> final(watching).producer_waker == Some(waker),
        final(watching).state == old(watching).state,
        final(watching).consumer_waker == old(watching).consumer_waker,
{
}

/// Storage is asked for where what is there does not suffice, and then for enough of
/// it, within the limit.
pub proof fn shortfalls_are_made_up(
    capacity: usize,
    length: usize,
    wanted: usize,
    limit: usize,
    result: Option<usize>,
)
    requires
        call_ensures(collect::shortfall, (capacity, length, wanted, limit), result),
        length <= wanted <= limit,
    ensures
        result is None <==> wanted <= capacity,
        result matches Some(more) ==> wanted <= length + more <= limit,
        result matches Some(more) ==> length + more == limit || length + more == wanted || length
            + more == 2 * capacity,
        result matches Some(more) ==> length + more == limit || length + more >= 2 * capacity,
{
}

/// A payload is appended whole or not at all.
pub proof fn payloads_are_appended_whole<E>(
    data: &mut Vec<u8>,
    frame: &[u8],
    reserved: Result<(), std::collections::TryReserveError>,
    result: Result<(), CollectError<E>>,
    other: &mut Vec<u8>,
    limit: usize,
    hint: SizeHint,
    behind: bool,
    appended: Result<(), CollectError<E>>,
)
    requires
        call_ensures(collect::append_reserved::<E>, (data, frame, reserved), result),
        call_ensures(collect::append::<E>, (other, frame, limit, hint, behind), appended),
    ensures
        reserved is Ok <==> result is Ok,
        result is Ok ==> final(data)@ == old(data)@ + frame@,
        result is Err ==> final(data)@ == old(data)@,
        result matches Err(error) ==> error is Allocation,
        appended is Ok ==> final(other)@ == old(other)@ + frame@ && final(other)@.len() <= limit
            && !behind,
        appended is Ok ==> (hint.high() matches Some(upper) ==> final(other)@.len() <= upper),
        appended is Err ==> final(other)@ == old(other)@,
        behind ==> (appended matches Err(error) && error is InvalidSequence),
        !behind && old(other)@.len() + frame@.len() > usize::MAX ==> (appended matches Err(error)
            && error is LengthOverflow),
        !behind && limit < old(other)@.len() + frame@.len() <= usize::MAX ==> (
        appended matches Err(CollectError::LimitExceeded { limit: named }) && named == limit),
        !behind && old(other)@.len() + frame@.len() <= limit && (hint.high() matches Some(upper)
            && old(other)@.len() + frame@.len() > upper) ==> (appended matches Err(error)
            && error is LengthMismatch),
        frame@.len() == 0 && !behind && old(other)@.len() <= limit && (hint.high() matches Some(
            upper,
        ) ==> old(other)@.len() <= upper) ==> appended is Ok,
{
}

/// A collected body gives back its bytes and its trailers.
pub proof fn collected_bodies_give_back(
    body: Collected,
    bytes: &bytes::Bytes,
    trailers: Option<&HeaderMap>,
    parts: (bytes::Bytes, Option<HeaderMap>),
    slice: &[u8],
)
    requires
        call_ensures(Collected::bytes, (&body,), bytes),
        call_ensures(Collected::trailers, (&body,), trailers),
        call_ensures(Collected::into_parts, (body,), parts),
        call_ensures(Collected::as_ref, (&body,), slice),
    ensures
        crate::outside::octets::octets(*bytes) == body.payload(),
        crate::outside::octets::octets(parts.0) == body.payload(),
        slice@ == body.payload(),
        parts.1 == body.fields(),
        trailers is Some <==> body.fields() is Some,
        trailers matches Some(fields) ==> body.fields() == Some(*fields),
{
}

/// An adapter gives its inner body back and passes everything but errors as it is.
pub proof fn adapters_give_back<B, F, A>(
    body: B,
    map: F,
    made: MapError<B, F>,
    inner: B,
    seen: &B,
    either: Either<A, A>,
    held: A,
)
    requires
        call_ensures(MapError::<B, F>::new, (body, map), made),
        call_ensures(MapError::<B, F>::into_inner, (made,), inner),
        call_ensures(MapError::<B, F>::get_ref, (&made,), seen),
        call_ensures(Either::<A, A>::into_inner, (either,), held),
    ensures
        made.body == body && made.map == map,
        inner == body,
        *seen == body,
        either matches Either::Left(value) ==> held == value,
        either matches Either::Right(value) ==> held == value,
{
}

/// Errors alone are mapped.
pub proof fn errors_alone_are_mapped<B, F: FnMut(E) -> G, T, E, G>(
    adapter: &mut MapError<B, F>,
    result: Result<T, E>,
    mapped: Result<T, G>,
)
    requires
        call_ensures(MapError::<B, F>::map_result::<T, E, G>, (adapter, result), mapped),
    ensures
        result is Ok <==> mapped is Ok,
        result matches Ok(value) ==> mapped == Ok::<T, G>(value),
        result matches Err(error) ==> (mapped matches Err(other) && call_ensures(
            old(adapter).map,
            (error,),
            other,
        )),
        final(adapter).body == old(adapter).body,
{
}

/// Streams and bodies are wrapped open, give their source back, and tell nothing of
/// its length until they are done.
pub proof fn wrappers_give_back<S, B>(
    stream: S,
    wrapped: StreamBody<S>,
    unwrapped: S,
    hint: SizeHint,
    body: B,
    frames: BodyStream<B>,
    inner: B,
)
    requires
        call_ensures(StreamBody::<S>::new, (stream,), wrapped),
        call_ensures(StreamBody::<S>::into_inner, (wrapped,), unwrapped),
        call_ensures(StreamBody::<S>::size_hint, (&wrapped,), hint),
        call_ensures(BodyStream::<B>::new, (body,), frames),
        call_ensures(BodyStream::<B>::into_inner, (frames,), inner),
    ensures
        !wrapped.done && unwrapped == stream,
        hint.low() == 0 && hint.high() is None,
        !frames.done && inner == body,
{
}

/// A consumer that drains is granted as much payload as it accepts, and as many wire
/// bytes with its allowance on top, up to what a count holds.
pub proof fn drains_are_granted<T, E, W>(
    pipe: &mut Rendezvous<T, E, W>,
    bytes: u64,
    allowance: u64,
)
    requires
        call_ensures(Rendezvous::<T, E, W>::drain_budget, (pipe, bytes, allowance), ()),
    ensures
        final(pipe).drain_remaining matches Some((wire, data)) && data == bytes && (bytes + allowance
            <= u64::MAX ==> wire == bytes + allowance) && (bytes + allowance > u64::MAX ==> wire
            == u64::MAX),
        final(pipe).state == old(pipe).state,
        final(pipe).finished == old(pipe).finished,
{
}

} // verus!
