//! What holds of admission and of observed responses, whatever their callers do.

use crate::body::pipe::{TakeError, Wait};
use crate::client::admission::{Admission, Gate, SendError, SubmitError};
use crate::client::response::{PendingResponse, ResponseEvent, UploadControl};
use crate::error::{Error, ErrorKind};
use vstd::prelude::*;

verus! {

/// A permit is given where nobody owns admission, and to whoever waited first. One
/// reservation at most waits; another is refused, and after the driver has gone, or
/// while the connection stops, every one is.
pub proof fn permits_are_given_in_turn<J, W>(
    gate: &mut Gate<J, W>,
    registered: bool,
    stopping: bool,
    waker: W,
    result: Wait<Result<(), Error>>,
)
    requires
        call_ensures(Gate::<J, W>::reserve, (gate, registered, stopping, waker), result),
    ensures
        stopping || old(gate)@.admission is Closed <==> (result matches Wait::Ready(Err(error))
            && error.kind == ErrorKind::Closed),
        (result matches Wait::Ready(Ok(_))) <==> !stopping && (old(gate)@.admission is Ready || (
        registered && old(gate)@.admission is ReadyForWaiter)),
        (result matches Wait::Ready(Ok(_))) ==> final(gate)@.admission == (Admission::<
            J,
            W,
        >::Reserved { waiter: None }),
        (result matches Wait::Ready(Err(error)) && error.kind == ErrorKind::Limit) ==> !registered
            && (old(gate)@.admission is ReadyForWaiter || old(gate)@.admission.waiter() is Some),
        !stopping && !registered && (old(gate)@.admission is ReadyForWaiter || old(
            gate,
        )@.admission.waiter() is Some) ==> (result matches Wait::Ready(Err(error)) && error.kind
            == ErrorKind::Limit),
        result is Pending ==> final(gate)@.admission.waiter() == Some(waker),
        (result matches Wait::Ready(Err(_))) ==> final(gate)@.admission == old(gate)@.admission,
        final(gate)@.admission.job() == old(gate)@.admission.job(),
        final(gate)@.senders == old(gate)@.senders,
        final(gate)@.driver == old(gate)@.driver,
{
}

/// A reservation that goes away leaves no claim: nobody waits, and admission kept
/// for it is open. Who owns admission, and the request that waits, stay.
pub proof fn leaving_leaves_no_claim<J, W>(gate: &mut Gate<J, W>)
    requires
        call_ensures(Gate::<J, W>::leave, (gate,), ()),
    ensures
        final(gate)@.admission.waiter() is None,
        old(gate)@.admission is ReadyForWaiter ==> final(gate)@.admission is Ready,
        old(gate)@.admission is Ready ==> final(gate)@.admission is Ready,
        old(gate)@.admission is Closed ==> final(gate)@.admission is Closed,
        old(gate)@.admission is Reserved ==> final(gate)@.admission is Reserved,
        old(gate)@.admission is Active ==> final(gate)@.admission is Active,
        final(gate)@.admission.job() == old(gate)@.admission.job(),
        final(gate)@.senders == old(gate)@.senders,
        final(gate)@.driver == old(gate)@.driver,
{
}

/// A request that is sent is the one that the driver is given next, and no other:
/// until then whoever waits keeps waiting, and nothing is lost.
pub proof fn sent_request_is_taken<J, W>(
    gate: &mut Gate<J, W>,
    job: J,
    stopping: bool,
    sent: Result<Option<W>, (J, Error)>,
    after: &mut Gate<J, W>,
    stopped: bool,
    waker: W,
    taken: Wait<Option<J>>,
)
    requires
        call_ensures(Gate::<J, W>::send, (gate, job, stopping), sent),
        call_ensures(Gate::<J, W>::next, (after, stopped, waker), taken),
        old(after)@ == final(gate)@,
        old(gate)@.admission is Reserved || old(gate)@.admission is Closed,
    ensures
        sent is Ok <==> old(gate)@.admission is Reserved && !stopping,
        sent matches Ok(wake) ==> wake == old(gate)@.driver && taken == Wait::Ready(Some(job))
            && final(after)@.admission == (Admission::<J, W>::Active {
            waiter: old(gate)@.admission.waiter(),
        }),
        sent matches Err((returned, error)) ==> returned == job && error.kind == ErrorKind::Closed
            && final(gate)@ == old(gate)@,
{
}

/// A driver ends where admission is closed, where the connection stops, and where no
/// sender is left to own it; before that it waits, and a request that was handed
/// over is taken in every case.
pub proof fn driver_takes_every_request<J, W>(
    gate: &mut Gate<J, W>,
    stopping: bool,
    waker: W,
    taken: Wait<Option<J>>,
)
    requires
        call_ensures(Gate::<J, W>::next, (gate, stopping, waker), taken),
    ensures
        old(gate)@.admission matches Admission::Queued { job, .. } ==> taken == Wait::Ready(
            Some(job),
        ),
        (taken matches Wait::Ready(None)) <==> !(old(gate)@.admission is Queued) && (old(
            gate,
        )@.admission is Closed || stopping || (old(gate)@.senders == 0 && !(old(
            gate,
        )@.admission is Reserved) && !(old(gate)@.admission is Active))),
        taken is Pending ==> final(gate)@.driver == Some(waker) && final(gate)@.admission == old(
            gate,
        )@.admission,
        final(gate)@.senders == old(gate)@.senders,
        final(gate)@.admission.waiter() == old(gate)@.admission.waiter(),
{
}

/// Whoever owned admission and releases it makes room for the one who waits, who is
/// woken and kept the place for, or else for anybody.
pub proof fn release_makes_room<J, W>(gate: &mut Gate<J, W>, woken: (Option<W>, Option<W>))
    requires
        call_ensures(Gate::<J, W>::release, (gate,), woken),
        old(gate)@.admission is Reserved || old(gate)@.admission is Active || old(
            gate,
        )@.admission is Closed,
    ensures
        woken.0 == old(gate)@.admission.waiter(),
        woken.1 == old(gate)@.driver,
        final(gate)@.admission is ReadyForWaiter <==> old(gate)@.admission.waiter() is Some,
        final(gate)@.admission is Closed <==> old(gate)@.admission is Closed,
        final(gate)@.admission is Ready <==> !(old(gate)@.admission is Closed) && old(
            gate,
        )@.admission.waiter() is None,
        final(gate)@.driver is None,
        final(gate)@.senders == old(gate)@.senders,
{
}

/// A driver that goes away closes admission for good: it hands back the request that
/// it did not take, and wakes the one who waits, whose reservation then fails.
pub proof fn closed_gate_refuses<J, W>(
    gate: &mut Gate<J, W>,
    left: (Option<W>, Option<J>),
    after: &mut Gate<J, W>,
    registered: bool,
    stopping: bool,
    waker: W,
    answer: Wait<Result<(), Error>>,
)
    requires
        call_ensures(Gate::<J, W>::close, (gate,), left),
        call_ensures(Gate::<J, W>::reserve, (after, registered, stopping, waker), answer),
        old(after)@ == final(gate)@,
    ensures
        left.0 == old(gate)@.admission.waiter(),
        old(gate)@.admission matches Admission::Queued { job, .. } ==> left.1 == Some(job),
        !(old(gate)@.admission is Queued) ==> left.1 is None,
        final(gate)@.admission is Closed,
        answer matches Wait::Ready(Err(error)) && error.kind == ErrorKind::Closed,
        final(after)@.admission is Closed,
{
}

/// Senders are counted: one at the start, one more for each copy and one less for
/// each that goes, which wakes the driver.
pub proof fn senders_are_counted<J, W>(
    fresh: Gate<J, W>,
    gate: &mut Gate<J, W>,
    after: &mut Gate<J, W>,
    wake: Option<W>,
    count: usize,
)
    requires
        call_ensures(Gate::<J, W>::new, (), fresh),
        call_ensures(Gate::<J, W>::sender_cloned, (gate,), ()),
        call_ensures(Gate::<J, W>::sender_dropped, (after,), wake),
        call_ensures(Gate::<J, W>::senders, (&*old(gate),), count),
        old(gate)@.senders < usize::MAX,
        old(after)@ == final(gate)@,
    ensures
        fresh@.senders == 1,
        fresh@.admission is Ready,
        fresh@.driver is None,
        count == old(gate)@.senders,
        final(gate)@.senders == old(gate)@.senders + 1,
        final(after)@.senders == old(gate)@.senders,
        wake == old(gate)@.driver,
        final(after)@.driver is None,
        final(after)@.admission == old(gate)@.admission,
{
}

/// An upload is aborted unless it is complete, and a complete one never is.
pub proof fn complete_upload_is_not_aborted<W>(
    fresh: UploadControl<W>,
    upload: &mut UploadControl<W>,
    after: &mut UploadControl<W>,
    unfinished: &mut UploadControl<W>,
    late: bool,
    early: bool,
)
    requires
        call_ensures(UploadControl::<W>::new, (), fresh),
        call_ensures(UploadControl::<W>::completed, (upload,), ()),
        call_ensures(UploadControl::<W>::abort, (after,), late),
        call_ensures(UploadControl::<W>::abort, (unfinished,), early),
        *old(after) == *final(upload),
        !old(unfinished).complete,
    ensures
        !fresh.complete && !fresh.aborted && !fresh.continue_allowed && fresh.continue_waker is None,
        final(upload).complete,
        !late,
        final(after).aborted == old(upload).aborted,
        final(after).complete,
        early,
        final(unfinished).aborted,
        !final(unfinished).complete,
        final(upload).continue_allowed == old(upload).continue_allowed,
        final(unfinished).continue_allowed == old(unfinished).continue_allowed,
{
}

/// An upload that waits for permission is woken by it, and from then on no upload
/// waits.
pub proof fn permission_wakes_the_upload<W>(
    upload: &mut UploadControl<W>,
    waker: W,
    asked: Wait<()>,
    after: &mut UploadControl<W>,
    wake: Option<W>,
    later: &mut UploadControl<W>,
    other: W,
    answer: Wait<()>,
)
    requires
        call_ensures(UploadControl::<W>::wait_continue, (upload, waker), asked),
        call_ensures(UploadControl::<W>::allow_continue, (after,), wake),
        call_ensures(UploadControl::<W>::wait_continue, (later, other), answer),
        *old(after) == *final(upload),
        *old(later) == *final(after),
    ensures
        asked is Pending <==> !old(upload).continue_allowed,
        asked is Pending ==> wake == Some(waker),
        answer is Ready,
        final(later).continue_waker is None,
        final(later).complete == old(upload).complete,
        final(later).aborted == old(upload).aborted,
{
}

/// An upload that no longer waits is not woken.
pub proof fn absent_upload_is_not_woken<W>(
    upload: &mut UploadControl<W>,
    after: &mut UploadControl<W>,
    wake: Option<W>,
)
    requires
        call_ensures(UploadControl::<W>::wait_left, (upload,), ()),
        call_ensures(UploadControl::<W>::allow_continue, (after,), wake),
        *old(after) == *final(upload),
    ensures
        wake is None,
        final(upload).continue_allowed == old(upload).continue_allowed,
        final(upload).complete == old(upload).complete,
        final(upload).aborted == old(upload).aborted,
{
}

/// An observer is given each event as it came, up to the final response or the first
/// failure, and nothing behind it. An end without a final response is a failure.
/// Before the final response was delivered, dropping the observation cancels.
pub proof fn events_are_observed_in_order<I, F>(
    pending: &mut PendingResponse,
    taken: Result<Option<ResponseEvent<I, F>>, TakeError<Error>>,
    result: Result<Option<ResponseEvent<I, F>>, Error>,
    cancels: bool,
)
    requires
        call_ensures(PendingResponse::next_event::<I, F>, (pending, taken), result),
        call_ensures(PendingResponse::cancels, (&*final(pending),), cancels),
        old(pending).delivered ==> old(pending).finished,
    ensures
        old(pending).finished ==> result == Ok::<Option<ResponseEvent<I, F>>, Error>(None)
            && final(pending).finished && final(pending).delivered == old(pending).delivered,
        !old(pending).finished ==> (taken matches Ok(Some(event)) ==> result == Ok::<
            Option<ResponseEvent<I, F>>,
            Error,
        >(Some(event)) && (final(pending).finished <==> event is Final) && (cancels <==> !(
        event is Final))),
        !old(pending).finished ==> (taken matches Ok(None) ==> (result matches Err(error)
            && error.kind == ErrorKind::Closed) && final(pending).finished && cancels),
        !old(pending).finished ==> (taken matches Err(TakeError::Failed(cause)) ==> result == Err::<
            Option<ResponseEvent<I, F>>,
            Error,
        >(cause) && final(pending).finished && cancels),
        !old(pending).finished ==> (taken matches Err(TakeError::Disconnected) ==> (
        result matches Err(error) && error.kind == ErrorKind::Closed) && final(pending).finished
            && cancels),
{
}

/// Waiting for the final response passes over what comes before it and ends with it
/// or with the first failure.
pub proof fn final_response_is_awaited<I, F>(
    event: Result<Option<ResponseEvent<I, F>>, Error>,
    result: Option<Result<F, Error>>,
)
    requires
        call_ensures(PendingResponse::response::<I, F>, (event,), result),
    ensures
        result is None <==> event is Ok && (event->Ok_0 matches Some(head) && head is Informational),
        (event matches Ok(Some(ResponseEvent::Final(response)))) ==> result == Some(
            Ok::<F, Error>(event->Ok_0->Some_0->Final_0),
        ),
        event matches Err(cause) ==> result == Some(Err::<F, Error>(cause)),
        (event matches Ok(None)) ==> (result matches Some(Err(error)) && error.kind
            == ErrorKind::Closed),
{
}

/// An observation starts with nothing delivered.
pub proof fn observation_starts_afresh(fresh: PendingResponse, cancels: bool)
    requires
        call_ensures(PendingResponse::new, (), fresh),
        call_ensures(PendingResponse::cancels, (&fresh,), cancels),
    ensures
        !fresh.delivered && !fresh.finished,
        cancels,
{
}

/// A request that was not submitted comes back as it was, with the reason.
pub proof fn refused_requests_come_back<B>(
    request: http::Request<B>,
    error: Error,
    made: SubmitError<B>,
    parts: (http::Request<B>, Error),
    failure: SendError<B>,
    seen: &Error,
)
    requires
        call_ensures(SubmitError::<B>::new, (request, error), made),
        call_ensures(SubmitError::<B>::into_parts, (made,), parts),
        call_ensures(SendError::<B>::error, (&failure,), seen),
    ensures
        parts.0 == request && parts.1 == error,
        made.error == error,
        failure matches SendError::Submission(refused) ==> *seen == refused.error,
        failure matches SendError::Exchange(cause) ==> *seen == cause,
{
}

} // verus!
