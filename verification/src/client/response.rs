//! Observation of the response to an accepted request.

use crate::body::pipe::{TakeError, Wait};
use crate::error::{Error, ErrorKind};
use vstd::prelude::*;

verus! {

/// The state of an accepted request's upload, with a handle `W` by which an upload
/// that waits for permission is woken.
#[derive(Debug)]
pub struct UploadControl<W> {
    pub complete: bool,
    pub aborted: bool,
    pub continue_allowed: bool,
    pub continue_waker: Option<W>,
}

impl<W> UploadControl<W> {
    pub fn new() -> (result: Self)
        ensures
            result == (UploadControl::<W> {
                complete: false,
                aborted: false,
                continue_allowed: false,
                continue_waker: None,
            }),
    {
        UploadControl {
            complete: false,
            aborted: false,
            continue_allowed: false,
            continue_waker: None,
        }
    }

    /// Aborts an unfinished upload, and says whether it is to be canceled. A
    /// complete upload is unaffected.
    pub fn abort(&mut self) -> (cancels: bool)
        ensures
            cancels == !old(self).complete,
            *final(self) == (UploadControl {
                aborted: old(self).aborted || !old(self).complete,
                ..*old(self)
            }),
    {
        if self.complete {
            return false;
        }
        self.aborted = true;
        true
    }

    /// Says that everything was sent.
    pub fn completed(&mut self)
        ensures
            *final(self) == (UploadControl { complete: true, ..*old(self) }),
    {
        self.complete = true;
    }

    /// Permits an upload that waits, and names it to be woken.
    pub fn allow_continue(&mut self) -> (wake: Option<W>)
        ensures
            wake == old(self).continue_waker,
            *final(self) == (UploadControl {
                continue_allowed: true,
                continue_waker: None,
                ..*old(self)
            }),
    {
        self.continue_allowed = true;
        self.continue_waker.take()
    }

    /// Asks for permission to upload.
    pub fn wait_continue(&mut self, waker: W) -> (result: Wait<()>)
        ensures
            result == (if old(self).continue_allowed {
                Wait::Ready(())
            } else {
                Wait::Pending
            }),
            *final(self) == (UploadControl {
                continue_waker: if old(self).continue_allowed {
                    old(self).continue_waker
                } else {
                    Some(waker)
                },
                ..*old(self)
            }),
    {
        if self.continue_allowed {
            Wait::Ready(())
        } else {
            self.continue_waker = Some(waker);
            Wait::Pending
        }
    }

    /// Forgets an upload that no longer waits.
    pub fn wait_left(&mut self)
        ensures
            *final(self) == (UploadControl { continue_waker: None, ..*old(self) }),
    {
        self.continue_waker = None;
    }
}

/// One informational head or the final response of an accepted request.
#[derive(Debug)]
pub enum ResponseEvent<I, F> {
    /// A bodyless informational response, including peer 100 Continue.
    Informational(I),
    /// The final response transfers body receiving to its body value.
    Final(F),
}

/// How far the observation of a response has come.
///
/// Dropped before final delivery, it cancels the exchange and retires the
/// connection. After delivery, the returned body's lifetime controls receiving.
#[derive(Debug)]
pub struct PendingResponse {
    pub delivered: bool,
    pub finished: bool,
}

/// The error of an observer whose driver has gone.
pub open spec fn closed_error() -> Error {
    Error { kind: ErrorKind::Closed, context: "response driver closed", source: None }
}

/// What an observer is given for what the driver offered.
pub open spec fn observation<I, F>(
    pending: PendingResponse,
    taken: Result<Option<ResponseEvent<I, F>>, TakeError<Error>>,
) -> Result<Option<ResponseEvent<I, F>>, Error> {
    if pending.finished {
        Ok(None)
    } else {
        match taken {
            Ok(Some(event)) => Ok(Some(event)),
            Err(TakeError::Failed(error)) => Err(error),
            _ => Err(closed_error()),
        }
    }
}

impl PendingResponse {
    /// A response that was delivered is the last of its events.
    pub open spec fn wf(self) -> bool {
        self.delivered ==> self.finished
    }

    pub fn new() -> (result: Self)
        ensures
            result == (PendingResponse { delivered: false, finished: false }),
            result.wf(),
    {
        PendingResponse { delivered: false, finished: false }
    }

    /// Observes what the driver offered: informational heads in wire order,
    /// followed by one final response. After final delivery or failure there is
    /// nothing more.
    pub fn next_event<I, F>(
        &mut self,
        taken: Result<Option<ResponseEvent<I, F>>, TakeError<Error>>,
    ) -> (result: Result<Option<ResponseEvent<I, F>>, Error>)
        requires
            old(self).wf(),
        ensures
            final(self).wf(),
            result == observation(*old(self), taken),
            final(self).delivered == (old(self).delivered || (!old(self).finished && (taken
                matches Ok(Some(ResponseEvent::Final(_)))))),
            final(self).finished == (old(self).finished || !(taken matches Ok(
                Some(ResponseEvent::Informational(_)),
            ))),
    {
        if self.finished {
            return Ok(None);
        }
        match taken {
            Ok(Some(ResponseEvent::Final(response))) => {
                self.delivered = true;
                self.finished = true;
                Ok(Some(ResponseEvent::Final(response)))
            },
            Ok(Some(event)) => Ok(Some(event)),
            Err(TakeError::Failed(error)) => {
                self.finished = true;
                Err(error)
            },
            _ => {
                self.finished = true;
                Err(Error::new(ErrorKind::Closed, "response driver closed"))
            },
        }
    }

    /// Waits for the final response and discards what comes before it: no answer
    /// means that the next event is to be awaited.
    pub fn response<I, F>(event: Result<Option<ResponseEvent<I, F>>, Error>) -> (result: Option<
        Result<F, Error>,
    >)
        ensures
            result == (match event {
                Ok(Some(ResponseEvent::Final(response))) => Some(Ok(response)),
                Ok(Some(ResponseEvent::Informational(_))) => None,
                Ok(None) => Some(
                    Err(
                        Error {
                            kind: ErrorKind::Closed,
                            context: "final response already consumed",
                            source: None,
                        },
                    ),
                ),
                Err(error) => Some(Err(error)),
            }),
    {
        match event {
            Ok(Some(ResponseEvent::Final(response))) => Some(Ok(response)),
            Ok(Some(ResponseEvent::Informational(_))) => None,
            Ok(None) => Some(
                Err(Error::new(ErrorKind::Closed, "final response already consumed")),
            ),
            Err(error) => Some(Err(error)),
        }
    }

    /// Whether the exchange is canceled when its observation is dropped now.
    pub fn cancels(&self) -> (result: bool)
        ensures
            result == !self.delivered,
    {
        !self.delivered
    }
}

/// Nothing is observed behind the final response or a failure.
pub proof fn observation_ends<I, F>(
    pending: PendingResponse,
    taken: Result<Option<ResponseEvent<I, F>>, TakeError<Error>>,
)
    requires
        pending.wf(),
        pending.finished,
    ensures
        observation(pending, taken) == Ok::<Option<ResponseEvent<I, F>>, Error>(None),
{
}

} // verus!
