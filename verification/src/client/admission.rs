//! Bounded request admission and ownership transfer to a client connection.
//!
//! One exchange, or one permit that was not used yet, owns admission, and at most
//! one reservation waits for it. There is no queue beyond that.

use crate::body::pipe::Wait;
use crate::error::{Error, ErrorKind};
use http::Request;
use vstd::prelude::*;

verus! {

/// Who owns admission. `J` is what a request hands to the driver, `W` a handle by
/// which a waiting reservation is woken.
#[derive(Debug)]
pub enum Admission<J, W> {
    /// Nobody.
    Ready,
    /// A permit.
    Reserved { waiter: Option<W> },
    /// A request that the driver has not taken yet.
    Queued { job: J, waiter: Option<W> },
    /// An exchange.
    Active { waiter: Option<W> },
    /// The owner released admission and woke the registered waiter, which has not
    /// claimed its permit yet. New reservations must not overtake it.
    ReadyForWaiter,
    /// The driver has gone.
    Closed,
}

/// The error of a sender whose driver has gone.
pub open spec fn closed_error() -> Error {
    Error { kind: ErrorKind::Closed, context: "request driver closed", source: None }
}

/// The error of a reservation that finds another one waiting.
pub open spec fn occupied_error() -> Error {
    Error {
        kind: ErrorKind::Limit,
        context: "request reservation already occupied",
        source: None,
    }
}

fn closed() -> (result: Error)
    ensures
        result == closed_error(),
{
    Error::new(ErrorKind::Closed, "request driver closed")
}

impl<J, W> Admission<J, W> {
    /// Who waits, where somebody may.
    pub open spec fn waiter(self) -> Option<W> {
        match self {
            Admission::Reserved { waiter } => waiter,
            Admission::Queued { waiter, .. } => waiter,
            Admission::Active { waiter } => waiter,
            _ => None,
        }
    }

    /// Somebody owns admission.
    pub open spec fn busy(self) -> bool {
        self is Reserved || self is Queued || self is Active
    }

    /// The request that waits for the driver.
    pub open spec fn job(self) -> Option<J> {
        match self {
            Admission::Queued { job, .. } => Some(job),
            _ => None,
        }
    }

    /// The same owner with another waiter.
    pub open spec fn with_waiter(self, waiter: Option<W>) -> Admission<J, W> {
        match self {
            Admission::Reserved { .. } => Admission::Reserved { waiter },
            Admission::Queued { job, .. } => Admission::Queued { job, waiter },
            Admission::Active { .. } => Admission::Active { waiter },
            other => other,
        }
    }

    pub fn is_closed(&self) -> (result: bool)
        ensures
            result == (self is Closed),
    {
        match self {
            Admission::Closed => true,
            _ => false,
        }
    }

    pub fn is_busy(&self) -> (result: bool)
        ensures
            result == self.busy(),
    {
        match self {
            Admission::Reserved { .. } | Admission::Queued { .. } | Admission::Active { .. } => true,
            _ => false,
        }
    }
}

/// What senders and the driver of one connection share.
#[derive(Debug)]
pub struct Gate<J, W> {
    admission: Admission<J, W>,
    senders: usize,
    driver: Option<W>,
}

/// The mathematical content of a gate.
pub struct GateView<J, W> {
    pub admission: Admission<J, W>,
    pub senders: usize,
    pub driver: Option<W>,
}

impl<J, W> View for Gate<J, W> {
    type V = GateView<J, W>;

    closed spec fn view(&self) -> GateView<J, W> {
        GateView { admission: self.admission, senders: self.senders, driver: self.driver }
    }
}

/// What a reservation is told.
pub open spec fn reserve_answer<J, W>(
    admission: Admission<J, W>,
    registered: bool,
    stopping: bool,
) -> Wait<Result<(), Error>> {
    if admission is Closed || stopping {
        Wait::Ready(Err(closed_error()))
    } else if registered && admission is ReadyForWaiter {
        Wait::Ready(Ok(()))
    } else if admission is Ready {
        Wait::Ready(Ok(()))
    } else if !registered && (!admission.busy() || admission.waiter() is Some) {
        Wait::Ready(Err(occupied_error()))
    } else {
        Wait::Pending
    }
}

/// Admission once its owner has released it: a waiter goes first.
pub open spec fn released<J, W>(admission: Admission<J, W>) -> Admission<J, W> {
    match admission {
        Admission::Reserved { waiter } => if waiter is Some {
            Admission::ReadyForWaiter
        } else {
            Admission::Ready
        },
        Admission::Active { waiter } => if waiter is Some {
            Admission::ReadyForWaiter
        } else {
            Admission::Ready
        },
        other => other,
    }
}

impl<J, W> Gate<J, W> {
    pub fn new() -> (result: Self)
        ensures
            result@ == (GateView::<J, W> { admission: Admission::Ready, senders: 1, driver: None }),
    {
        Gate { admission: Admission::Ready, senders: 1, driver: None }
    }

    /// How many senders there are.
    pub fn senders(&self) -> (result: usize)
        ensures
            result == self@.senders,
    {
        self.senders
    }

    fn replace(&mut self, admission: Admission<J, W>) -> (result: Admission<J, W>)
        ensures
            result == old(self)@.admission,
            final(self)@ == (GateView { admission, ..old(self)@ }),
    {
        let mut other = admission;
        std::mem::swap(&mut self.admission, &mut other);
        other
    }

    /// Asks for a permit. `registered` says whether this reservation already
    /// waits; a reservation that is told to wait is registered from then on. A
    /// waiting reservation goes before newcomers.
    pub fn reserve(&mut self, registered: bool, stopping: bool, waker: W) -> (result: Wait<
        Result<(), Error>,
    >)
        requires
            registered ==> old(self)@.admission.busy() || old(self)@.admission is ReadyForWaiter
                || old(self)@.admission is Closed,
        ensures
            result == reserve_answer(old(self)@.admission, registered, stopping),
            final(self)@ == (GateView {
                admission: match result {
                    Wait::Ready(Ok(())) => Admission::Reserved { waiter: None },
                    Wait::Ready(Err(_)) => old(self)@.admission,
                    Wait::Pending => old(self)@.admission.with_waiter(Some(waker)),
                },
                ..old(self)@
            }),
    {
        if self.admission.is_closed() || stopping {
            return Wait::Ready(Err(closed()));
        }
        match self.replace(Admission::Closed) {
            Admission::Ready => {
                self.admission = Admission::Reserved { waiter: None };
                Wait::Ready(Ok(()))
            },
            Admission::ReadyForWaiter => {
                if registered {
                    self.admission = Admission::Reserved { waiter: None };
                    return Wait::Ready(Ok(()));
                }
                self.admission = Admission::ReadyForWaiter;
                Wait::Ready(
                    Err(Error::new(ErrorKind::Limit, "request reservation already occupied")),
                )
            },
            Admission::Reserved { waiter } => {
                if !registered && waiter.is_some() {
                    self.admission = Admission::Reserved { waiter };
                    return Wait::Ready(
                        Err(Error::new(ErrorKind::Limit, "request reservation already occupied")),
                    );
                }
                self.admission = Admission::Reserved { waiter: Some(waker) };
                Wait::Pending
            },
            Admission::Queued { job, waiter } => {
                if !registered && waiter.is_some() {
                    self.admission = Admission::Queued { job, waiter };
                    return Wait::Ready(
                        Err(Error::new(ErrorKind::Limit, "request reservation already occupied")),
                    );
                }
                self.admission = Admission::Queued { job, waiter: Some(waker) };
                Wait::Pending
            },
            Admission::Active { waiter } => {
                if !registered && waiter.is_some() {
                    self.admission = Admission::Active { waiter };
                    return Wait::Ready(
                        Err(Error::new(ErrorKind::Limit, "request reservation already occupied")),
                    );
                }
                self.admission = Admission::Active { waiter: Some(waker) };
                Wait::Pending
            },
            Admission::Closed => Wait::Ready(Err(closed())),
        }
    }

    /// A registered reservation goes away: nobody waits any more, and admission
    /// that was kept for it is open again.
    pub fn leave(&mut self)
        ensures
            final(self)@ == (GateView {
                admission: if old(self)@.admission is ReadyForWaiter {
                    Admission::Ready
                } else {
                    old(self)@.admission.with_waiter(None)
                },
                ..old(self)@
            }),
    {
        let admission = match self.replace(Admission::Closed) {
            Admission::ReadyForWaiter => Admission::Ready,
            Admission::Reserved { .. } => Admission::Reserved { waiter: None },
            Admission::Queued { job, .. } => Admission::Queued { job, waiter: None },
            Admission::Active { .. } => Admission::Active { waiter: None },
            other => other,
        };
        self.admission = admission;
    }

    /// Hands a request over, on the strength of a permit; the driver is named to
    /// be woken. A request that cannot be handed over comes back.
    pub fn send(&mut self, job: J, stopping: bool) -> (result: Result<Option<W>, (J, Error)>)
        requires
            old(self)@.admission is Reserved || old(self)@.admission is Closed,
        ensures
            match result {
                Ok(wake) => {
                    &&& old(self)@.admission is Reserved && !stopping
                    &&& wake == old(self)@.driver
                    &&& final(self)@ == (GateView {
                        admission: Admission::Queued { job, waiter: old(self)@.admission.waiter() },
                        driver: None,
                        ..old(self)@
                    })
                },
                Err((returned, error)) => {
                    &&& old(self)@.admission is Closed || stopping
                    &&& returned == job
                    &&& error == closed_error()
                    &&& final(self)@ == old(self)@
                },
            },
    {
        if self.admission.is_closed() || stopping {
            return Err((job, closed()));
        }
        match self.replace(Admission::Closed) {
            Admission::Reserved { waiter } => {
                self.admission = Admission::Queued { job, waiter };
                Ok(self.driver.take())
            },
            other => {
                self.admission = other;
                Err((job, closed()))
            },
        }
    }

    /// Asks for the next request. The driver ends once admission is closed, the
    /// connection stops, or no sender is left and nobody owns admission; a request
    /// that was handed over before is still taken.
    pub fn next(&mut self, stopping: bool, waker: W) -> (result: Wait<Option<J>>)
        ensures
            match old(self)@.admission {
                Admission::Queued { job, waiter } => {
                    &&& result == Wait::Ready(Some(job))
                    &&& final(self)@ == (GateView {
                        admission: Admission::Active { waiter },
                        ..old(self)@
                    })
                },
                admission => if admission is Closed || stopping || (old(self)@.senders == 0
                    && !admission.busy()) {
                    result == Wait::Ready(None::<J>) && final(self)@ == old(self)@
                } else {
                    result == Wait::<Option<J>>::Pending && final(self)@ == (GateView {
                        driver: Some(waker),
                        ..old(self)@
                    })
                },
            },
    {
        match self.replace(Admission::Closed) {
            Admission::Queued { job, waiter } => {
                self.admission = Admission::Active { waiter };
                return Wait::Ready(Some(job));
            },
            other => {
                self.admission = other;
            },
        }
        if self.admission.is_closed() || stopping || (self.senders == 0 && !self.admission.is_busy()) {
            return Wait::Ready(None);
        }
        self.driver = Some(waker);
        Wait::Pending
    }

    /// The owner releases admission: a waiter, and the driver, are named to be
    /// woken.
    pub fn release(&mut self) -> (result: (Option<W>, Option<W>))
        requires
            old(self)@.admission is Reserved || old(self)@.admission is Active || old(self)@.admission is Closed,
        ensures
            result.0 == old(self)@.admission.waiter(),
            result.1 == old(self)@.driver,
            final(self)@ == (GateView {
                admission: released(old(self)@.admission),
                driver: None,
                ..old(self)@
            }),
    {
        let waiter = match self.replace(Admission::Closed) {
            Admission::Reserved { waiter } => waiter,
            Admission::Active { waiter } => waiter,
            other => {
                self.admission = other;
                let driver = self.driver.take();
                return (None, driver);
            },
        };
        self.admission = if waiter.is_some() {
            Admission::ReadyForWaiter
        } else {
            Admission::Ready
        };
        let driver = self.driver.take();
        (waiter, driver)
    }

    /// The driver goes away: a waiter is named to be woken, and a request that was
    /// not taken comes back.
    pub fn close(&mut self) -> (result: (Option<W>, Option<J>))
        ensures
            result.0 == old(self)@.admission.waiter(),
            result.1 == old(self)@.admission.job(),
            final(self)@ == (GateView { admission: Admission::Closed, driver: None, ..old(self)@ }),
    {
        self.driver = None;
        match self.replace(Admission::Closed) {
            Admission::Reserved { waiter } => (waiter, None),
            Admission::Active { waiter } => (waiter, None),
            Admission::Queued { job, waiter } => (waiter, Some(job)),
            _ => (None, None),
        }
    }

    /// Another sender.
    pub fn sender_cloned(&mut self)
        requires
            old(self)@.senders < usize::MAX,
        ensures
            final(self)@ == (GateView { senders: (old(self)@.senders + 1) as usize, ..old(self)@ }),
    {
        self.senders = self.senders + 1;
    }

    /// One sender less: the driver is named to be woken.
    pub fn sender_dropped(&mut self) -> (result: Option<W>)
        requires
            old(self)@.senders > 0,
        ensures
            result == old(self)@.driver,
            final(self)@ == (GateView {
                senders: (old(self)@.senders - 1) as usize,
                driver: None,
                ..old(self)@
            }),
    {
        self.senders = self.senders - 1;
        self.driver.take()
    }
}

/// A newcomer never overtakes a reservation that waits: while one waits, or has
/// been woken and not come yet, a newcomer is refused.
pub proof fn newcomers_do_not_overtake<J, W>(admission: Admission<J, W>)
    requires
        admission.waiter() is Some || admission is ReadyForWaiter,
    ensures
        reserve_answer(admission, false, false) == Wait::Ready(Err::<(), Error>(occupied_error())),
        released(admission) is ReadyForWaiter || admission is Queued,
{
}

/// A released admission is claimed by the one who waits for it, and only then is
/// anybody else told to wait.
pub proof fn waiter_goes_first<J, W>(admission: Admission<J, W>)
    requires
        admission is Reserved || admission is Active,
        admission.waiter() is Some,
    ensures
        reserve_answer(released(admission), true, false) == Wait::Ready(Ok::<(), Error>(())),
        reserve_answer(released(admission), false, false) == Wait::Ready(
            Err::<(), Error>(occupied_error()),
        ),
{
}

/// At most one owner: a permit is given only where nobody owns admission.
pub proof fn one_owner<J, W>(admission: Admission<J, W>, registered: bool, stopping: bool)
    requires
        reserve_answer(admission, registered, stopping) == Wait::Ready(Ok::<(), Error>(())),
    ensures
        !admission.busy(),
        !stopping,
        admission is Ready || (registered && admission is ReadyForWaiter),
{
}

/// A failure before request ownership transfers into the driver.
/// The contained request has not been written by this submission attempt.
#[verifier::reject_recursive_types(B)]
pub struct SubmitError<B> {
    pub request: Box<Request<B>>,
    pub error: Error,
}

impl<B> SubmitError<B> {
    pub fn new(request: Request<B>, error: Error) -> (result: Self)
        ensures
            *result.request == request,
            result.error == error,
    {
        SubmitError { request: Box::new(request), error }
    }

    /// Inspect the admission failure.
    pub fn error(&self) -> (result: &Error)
        ensures
            *result == self.error,
    {
        &self.error
    }

    /// Recover the original request and failure without cloning either.
    pub fn into_parts(self) -> (result: (Request<B>, Error))
        ensures
            result.0 == *self.request,
            result.1 == self.error,
    {
        (*self.request, self.error)
    }
}

/// Distinguishes recoverable admission failure from failure after ownership
/// transfer. An accepted exchange failure never promises that retry is safe.
#[verifier::reject_recursive_types(B)]
pub enum SendError<B> {
    /// The request was not submitted and can be recovered unchanged.
    Submission(SubmitError<B>),
    /// The driver accepted the request; some bytes may have reached the peer.
    Exchange(Error),
}

impl<B> SendError<B> {
    /// The underlying error.
    pub open spec fn cause(self) -> Error {
        match self {
            SendError::Submission(failure) => failure.error,
            SendError::Exchange(error) => error,
        }
    }

    /// Inspect the underlying classification and source chain.
    pub fn error(&self) -> (result: &Error)
        ensures
            *result == self.cause(),
    {
        match self {
            SendError::Submission(failure) => failure.error(),
            SendError::Exchange(error) => error,
        }
    }
}

} // verus!
