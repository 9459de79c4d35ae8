//! Controls and outcomes of a caller-driven HTTP connection.

use crate::body::pipe::Wait;
use crate::error::{Error, ErrorKind};
use crate::outside::time;
use crate::proto::h1::UpgradeKind;
use bytes::Bytes;
use std::time::Instant;
use vstd::prelude::*;

verus! {

/// A transport that HTTP handed over, with the bytes that it read ahead.
#[derive(Debug)]
pub struct Upgraded<R, W> {
    pub reader: R,
    pub writer: W,
    pub read_ahead: Bytes,
    pub kind: UpgradeKind,
}

/// Ownership returned after all retained HTTP operations have settled.
/// The caller continues driving an upgraded transport using its concrete halves.
#[derive(Debug)]
pub enum ConnectionOutcome<R, W> {
    /// HTTP completed and the connection was closed.
    Closed,
    /// HTTP transferred the transport and preserved unread protocol bytes.
    Upgraded(Upgraded<R, W>),
}

/// The tasks to wake.
#[derive(Debug)]
pub struct Woken<W> {
    pub driver: Option<W>,
    pub admission: Option<W>,
    pub idle: Option<W>,
}

/// The control state of a caller-driven connection, with the handles `W` by which
/// its waiting tasks are woken.
///
/// Graceful shutdown completes accepted work; an abort cancels it. Neither is
/// ever taken back, and a deadline only ever comes closer.
#[derive(Debug)]
pub struct ConnectionControl<W> {
    pub stopping: bool,
    pub abort: bool,
    pub deadline: Option<Instant>,
    pub driver: Option<W>,
    pub admission: Option<W>,
    pub idle: Option<W>,
}

/// What the driver learns when it asks whether to abort.
#[derive(Debug)]
pub enum AbortWait {
    /// Abort now.
    Now,
    /// Abort at this deadline, unless the request changes before.
    At(Instant),
    /// Nobody asked.
    Pending,
}

/// The moment of a deadline.
pub open spec fn moment_of(deadline: Option<Instant>) -> Option<int> {
    match deadline {
        Some(instant) => Some(time::moment(instant)),
        None => None,
    }
}

/// The earlier of two moments, where no moment is the latest.
pub open spec fn earlier_of(left: Option<int>, right: Option<int>) -> Option<int> {
    match (left, right) {
        (Some(left), Some(right)) => if left < right {
            Some(left)
        } else {
            Some(right)
        },
        (Some(left), None) => Some(left),
        (None, right) => right,
    }
}

impl<W> ConnectionControl<W> {
    /// An abort also stops the connection, and so does a deadline.
    pub open spec fn wf(self) -> bool {
        (self.abort || self.deadline is Some) ==> self.stopping
    }

    pub fn new() -> (result: Self)
        ensures
            result == (ConnectionControl::<W> {
                stopping: false,
                abort: false,
                deadline: None,
                driver: None,
                admission: None,
                idle: None,
            }),
            result.wf(),
    {
        ConnectionControl {
            stopping: false,
            abort: false,
            deadline: None,
            driver: None,
            admission: None,
            idle: None,
        }
    }

    /// Stops new admission and finishes accepted work without an implicit
    /// deadline. This never relaxes an earlier deadline or abort request.
    pub fn graceful_shutdown(&mut self) -> (woken: Woken<W>)
        ensures
            woken == (Woken {
                driver: old(self).driver,
                admission: old(self).admission,
                idle: old(self).idle,
            }),
            *final(self) == (ConnectionControl {
                stopping: true,
                driver: None,
                admission: None,
                idle: None,
                ..*old(self)
            }),
            final(self).wf(),
    {
        self.stopping = true;
        self.wake()
    }

    /// Requests immediate cancellation and settlement of the connection.
    pub fn abort(&mut self) -> (woken: Woken<W>)
        ensures
            woken == (Woken {
                driver: old(self).driver,
                admission: old(self).admission,
                idle: old(self).idle,
            }),
            *final(self) == (ConnectionControl {
                stopping: true,
                abort: true,
                driver: None,
                admission: None,
                idle: None,
                ..*old(self)
            }),
            final(self).wf(),
    {
        self.abort = true;
        self.graceful_shutdown()
    }

    /// Stops admission now and escalates to an abort at this absolute deadline.
    /// Repeated requests keep the earliest deadline.
    pub fn graceful_shutdown_with_deadline(&mut self, deadline: Instant) -> (woken: Woken<W>)
        ensures
            woken == (Woken {
                driver: old(self).driver,
                admission: old(self).admission,
                idle: old(self).idle,
            }),
            moment_of(final(self).deadline) == earlier_of(
                moment_of(old(self).deadline),
                Some(time::moment(deadline)),
            ),
            final(self).deadline == old(self).deadline || final(self).deadline == Some(deadline),
            *final(self) == (ConnectionControl {
                stopping: true,
                deadline: final(self).deadline,
                driver: None,
                admission: None,
                idle: None,
                ..*old(self)
            }),
            final(self).wf(),
    {
        let kept = match self.deadline {
            Some(earlier) => time::earlier(&earlier, &deadline),
            None => false,
        };
        if !kept {
            self.deadline = Some(deadline);
        }
        self.graceful_shutdown()
    }

    fn wake(&mut self) -> (woken: Woken<W>)
        ensures
            woken == (Woken {
                driver: old(self).driver,
                admission: old(self).admission,
                idle: old(self).idle,
            }),
            *final(self) == (ConnectionControl {
                driver: None,
                admission: None,
                idle: None,
                ..*old(self)
            }),
    {
        Woken {
            driver: self.driver.take(),
            admission: self.admission.take(),
            idle: self.idle.take(),
        }
    }

    /// Whether new work is still let in.
    pub fn stopping(&self) -> (result: bool)
        ensures
            result == self.stopping,
    {
        self.stopping
    }

    /// Keeps the handle of a task that waits to be let in.
    pub fn admission_waker(&mut self, waker: W)
        ensures
            *final(self) == (ConnectionControl { admission: Some(waker), ..*old(self) }),
    {
        self.admission = Some(waker);
    }

    /// Asks whether the connection stops.
    pub fn stopped(&mut self, waker: W) -> (result: Wait<()>)
        ensures
            result == (if old(self).stopping {
                Wait::Ready(())
            } else {
                Wait::Pending
            }),
            *final(self) == (ConnectionControl {
                idle: if old(self).stopping {
                    old(self).idle
                } else {
                    Some(waker)
                },
                ..*old(self)
            }),
    {
        if self.stopping {
            Wait::Ready(())
        } else {
            self.idle = Some(waker);
            Wait::Pending
        }
    }

    /// Asks whether the driver is to abort. An abort comes before a deadline.
    pub fn abort_requested(&mut self, waker: W) -> (result: AbortWait)
        ensures
            result == (if old(self).abort {
                AbortWait::Now
            } else {
                match old(self).deadline {
                    Some(deadline) => AbortWait::At(deadline),
                    None => AbortWait::Pending,
                }
            }),
            *final(self) == (ConnectionControl { driver: Some(waker), ..*old(self) }),
    {
        self.driver = Some(waker);
        if self.abort {
            return AbortWait::Now;
        }
        match self.deadline {
            Some(deadline) => AbortWait::At(deadline),
            None => AbortWait::Pending,
        }
    }

    /// Whether what the driver waits for is no longer what was asked.
    pub fn abort_changed(&mut self, deadline: &Instant, waker: W) -> (result: bool)
        ensures
            result == (old(self).abort || moment_of(old(self).deadline) != Some(
                time::moment(*deadline),
            )),
            *final(self) == (ConnectionControl { driver: Some(waker), ..*old(self) }),
    {
        self.driver = Some(waker);
        let same = match &self.deadline {
            Some(current) => !time::earlier(current, deadline) && !time::earlier(deadline, current),
            None => false,
        };
        self.abort || !same
    }

    /// The driver has gone: nothing new is let in.
    pub fn released(&mut self) -> (woken: Woken<W>)
        ensures
            woken == (Woken {
                driver: old(self).driver,
                admission: old(self).admission,
                idle: old(self).idle,
            }),
            *final(self) == (ConnectionControl {
                stopping: true,
                driver: None,
                admission: None,
                idle: None,
                ..*old(self)
            }),
            final(self).wf(),
    {
        self.graceful_shutdown()
    }
}

/// What a driver ends with: `aborted` is the kind of an abort that came before
/// its end. A failure of its own is kept; success and cancellation are not.
pub fn driven<T>(result: Result<T, Error>, aborted: Option<ErrorKind>) -> (driven: Result<T, Error>)
    ensures
        driven == (match aborted {
            None => result,
            Some(kind) => match result {
                Err(error) => if error.kind == ErrorKind::Canceled {
                    Err(shutdown(kind))
                } else {
                    Err(error)
                },
                Ok(_) => Err(shutdown(kind)),
            },
        }),
{
    let kind = match aborted {
        Some(kind) => kind,
        None => return result,
    };
    match result {
        Err(error) => if error.is_canceled() {
            Err(Error::new(kind, "connection shutdown requested"))
        } else {
            Err(error)
        },
        Ok(_) => Err(Error::new(kind, "connection shutdown requested")),
    }
}

/// The error of a connection that was shut down.
pub open spec fn shutdown(kind: ErrorKind) -> Error {
    Error { kind, context: "connection shutdown requested", source: None }
}

/// The deadline that a run of requests leaves.
pub open spec fn after_requests(first: Option<int>, requests: Seq<int>) -> Option<int>
    decreases requests.len(),
{
    if requests.len() == 0 {
        first
    } else {
        earlier_of(after_requests(first, requests.drop_last()), Some(requests.last()))
    }
}

/// However deadlines are asked for, the earliest one stands: no request puts it
/// off, and it is one of those that were asked for.
pub proof fn earliest_deadline_stands(first: Option<int>, requests: Seq<int>)
    ensures
        forall|i: int|
            0 <= i < requests.len() ==> (after_requests(first, requests) matches Some(deadline)
                && deadline <= #[trigger] requests[i]),
        first matches Some(earlier) ==> (after_requests(first, requests) matches Some(deadline)
            && deadline <= earlier),
        after_requests(first, requests) matches Some(deadline) ==> first == Some(deadline)
            || requests.contains(deadline),
    decreases requests.len(),
{
    if requests.len() > 0 {
        let before = requests.drop_last();
        earliest_deadline_stands(first, before);
        assert forall|i: int| 0 <= i < requests.len() implies (after_requests(
            first,
            requests,
        ) matches Some(deadline) && deadline <= #[trigger] requests[i]) by {
            if i < before.len() {
                assert(before[i] == requests[i]);
            }
        }
        if let Some(deadline) = after_requests(first, requests) {
            if deadline == requests.last() {
                assert(requests[requests.len() - 1] == deadline);
            } else if before.contains(deadline) {
                let i = choose|i: int| 0 <= i < before.len() && before[i] == deadline;
                assert(requests[i] == deadline);
            }
        }
    }
}

/// Shutting down stops admission for good and wakes everybody who waits; only an abort
/// asks to abort, and no shutdown takes an earlier abort or deadline back.
pub proof fn shutdowns_are_not_taken_back<W>(
    fresh: ConnectionControl<W>,
    graceful: &mut ConnectionControl<W>,
    aborting: &mut ConnectionControl<W>,
    gone: &mut ConnectionControl<W>,
    told: Woken<W>,
    aborted: Woken<W>,
    released: Woken<W>,
)
    requires
        call_ensures(ConnectionControl::<W>::new, (), fresh),
        call_ensures(ConnectionControl::<W>::graceful_shutdown, (graceful,), told),
        call_ensures(ConnectionControl::<W>::abort, (aborting,), aborted),
        call_ensures(ConnectionControl::<W>::released, (gone,), released),
    ensures
        !fresh.stopping && !fresh.abort && fresh.deadline is None,
        final(graceful).stopping && final(aborting).stopping && final(gone).stopping,
        final(graceful).abort == old(graceful).abort,
        final(aborting).abort,
        final(gone).abort == old(gone).abort,
        final(graceful).deadline == old(graceful).deadline,
        final(aborting).deadline == old(aborting).deadline,
        final(gone).deadline == old(gone).deadline,
        told.driver == old(graceful).driver && told.admission == old(graceful).admission
            && told.idle == old(graceful).idle,
        aborted.driver == old(aborting).driver && aborted.admission == old(aborting).admission
            && aborted.idle == old(aborting).idle,
        released.driver == old(gone).driver && released.admission == old(gone).admission
            && released.idle == old(gone).idle,
        final(graceful).driver is None && final(graceful).admission is None && final(
            graceful
        ).idle is None,
        final(aborting).driver is None && final(aborting).admission is None && final(
            aborting
        ).idle is None,
        final(gone).driver is None && final(gone).admission is None && final(gone).idle is None,
{
}

/// A deadline stands unless an earlier one is asked for.
pub proof fn deadlines_come_closer<W>(
    control: &mut ConnectionControl<W>,
    deadline: Instant,
    woken: Woken<W>,
)
    requires
        call_ensures(
            ConnectionControl::<W>::graceful_shutdown_with_deadline,
            (control, deadline),
            woken,
        ),
    ensures
        final(control).stopping,
        final(control).abort == old(control).abort,
        final(control).deadline matches Some(kept) && time::moment(kept) <= time::moment(deadline),
        old(control).deadline matches Some(earlier) ==> (final(control).deadline matches Some(kept)
            && time::moment(kept) <= time::moment(earlier) && (kept == earlier || kept
            == deadline)),
        old(control).deadline is None ==> final(control).deadline == Some(deadline),
        woken.driver == old(control).driver && woken.admission == old(control).admission
            && woken.idle == old(control).idle,
        final(control).driver is None && final(control).admission is None && final(
            control
        ).idle is None,
{
}

/// Whoever waits for a stop goes on once there is one and is remembered until then;
/// whoever waits to be let in is remembered too.
pub proof fn stops_are_waited_for<W>(
    control: &mut ConnectionControl<W>,
    waker: W,
    result: Wait<()>,
    entering: &mut ConnectionControl<W>,
    other: W,
    stopping: bool,
)
    requires
        call_ensures(ConnectionControl::<W>::stopped, (control, waker), result),
        call_ensures(ConnectionControl::<W>::admission_waker, (entering, other), ()),
        call_ensures(ConnectionControl::<W>::stopping, (&*old(control),), stopping),
    ensures
        result is Ready <==> old(control).stopping,
        result is Pending ==> final(control).idle == Some(waker),
        stopping == old(control).stopping,
        final(control).stopping == old(control).stopping,
        final(control).abort == old(control).abort,
        final(entering).admission == Some(other),
        final(entering).stopping == old(entering).stopping,
        final(entering).idle == old(entering).idle,
{
}

/// A driver aborts now where an abort was asked for, at the deadline where one stands,
/// and not otherwise; what it waits for has changed exactly where a new abort or
/// another deadline was asked for since.
pub proof fn aborts_reach_the_driver<W>(
    control: &mut ConnectionControl<W>,
    waker: W,
    answer: AbortWait,
    waiting: &mut ConnectionControl<W>,
    deadline: Instant,
    other: W,
    changed: bool,
)
    requires
        call_ensures(ConnectionControl::<W>::abort_requested, (control, waker), answer),
        call_ensures(ConnectionControl::<W>::abort_changed, (waiting, &deadline, other), changed),
    ensures
        answer is Now <==> old(control).abort,
        answer matches AbortWait::At(moment) ==> old(control).deadline == Some(moment),
        answer is Pending <==> !old(control).abort && old(control).deadline is None,
        final(control).driver == Some(waker),
        old(waiting).abort ==> changed,
        old(waiting).deadline is None ==> changed,
        old(waiting).deadline matches Some(current) ==> (changed <==> old(waiting).abort
            || time::moment(current) != time::moment(deadline)),
        final(waiting).driver == Some(other),
        final(waiting).deadline == old(waiting).deadline,
        final(control).deadline == old(control).deadline,
        final(control).stopping == old(control).stopping,
{
}

/// An abort takes the place of success and of a cancellation, and of no failure of the
/// driver's own; without one the driver ends as it did.
pub proof fn aborts_hide_no_failure<T>(
    result: Result<T, Error>,
    aborted: Option<ErrorKind>,
    ended: Result<T, Error>,
)
    requires
        call_ensures(driven::<T>, (result, aborted), ended),
    ensures
        aborted is None ==> ended == result,
        aborted matches Some(kind) ==> (result is Ok ==> (ended matches Err(error) && error.kind
            == kind)),
        aborted matches Some(kind) ==> (result matches Err(cause) ==> (ended matches Err(error)
            && if cause.kind == ErrorKind::Canceled {
            error.kind == kind
        } else {
            error == cause
        })),
{
}

} // verus!
