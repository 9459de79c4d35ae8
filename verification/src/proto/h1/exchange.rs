//! The protocol decisions of one request and its response.

use crate::error::{self, Error, ErrorKind};
use crate::message::{copied, Method};
use crate::outside::fields;
use crate::proto::h1::head::{ResponseHead, ResponseView};
use crate::proto::h1::validate::{
    self, upgrade_protocols_match, RequestMeaning, ResponseMeaning, ValidatedRequestHead,
    ValidatedResponseHead,
};
use crate::proto::h1::{Expectation, Persistence, UpgradeKind};
use vstd::prelude::*;

verus! {

/// A half of an exchange.
#[derive(Clone, Copy, Debug, PartialEq, Eq, Structural)]
pub enum Direction {
    Request,
    Response,
}

/// How far a direction has come.
#[derive(Clone, Copy, Debug, PartialEq, Eq, Structural)]
pub enum Progress {
    Active,
    Stopping,
    Complete,
    Aborted,
}

impl Progress {
    pub open spec fn is_settled(self) -> bool {
        self == Progress::Complete || self == Progress::Aborted
    }

    /// The direction once it has been told to stop.
    pub open spec fn stopped(self) -> Progress {
        if self == Progress::Active {
            Progress::Stopping
        } else {
            self
        }
    }

    pub fn settled(self) -> (result: bool)
        ensures
            result == self.is_settled(),
    {
        match self {
            Progress::Complete | Progress::Aborted => true,
            _ => false,
        }
    }
}

/// Which response head has come.
#[derive(Clone, Copy, Debug, PartialEq, Eq, Structural)]
pub enum ResponsePhase {
    AwaitingHead,
    Final,
    Upgrade(UpgradeKind),
}

/// What a response head calls for.
#[derive(Clone, Copy, Debug, PartialEq, Eq, Structural)]
pub enum HeadAction {
    Informational,
    Final,
    Upgrade(UpgradeKind),
}

/// What becomes of the connection.
#[derive(Clone, Copy, Debug, PartialEq, Eq, Structural)]
pub enum Outcome {
    Active,
    Reusable,
    Close,
    Handoff(UpgradeKind),
}

/// Protocol decisions for one exchange, independent of service-future lifetime.
///
/// A head event is not an I/O-completion event. Drivers must acknowledge both
/// directions only after their framing, producer terminal checks, and owned I/O
/// have settled. An abort requests that work stop; it never asserts that buffers
/// have returned. No transport, body allocation, or scheduling lives here.
#[derive(Debug)]
pub struct Exchange {
    request: Progress,
    response: Progress,
    phase: ResponsePhase,
    persistence: Persistence,
    failed: bool,
    method: Method,
    upgrade: Option<UpgradeKind>,
    offered_protocols: Vec<Vec<u8>>,
    informational: usize,
    max_informational: usize,
    waiting_continue: bool,
}

/// The mathematical content of an exchange.
pub struct ExchangeView {
    pub request: Progress,
    pub response: Progress,
    pub phase: ResponsePhase,
    pub persistence: Persistence,
    pub failed: bool,
    pub method: Seq<u8>,
    pub upgrade: Option<UpgradeKind>,
    pub offered_protocols: Seq<Seq<u8>>,
    pub informational: nat,
    pub max_informational: nat,
    pub waiting_continue: bool,
}

/// The bytes of several vectors.
pub open spec fn texts(values: Seq<Vec<u8>>) -> Seq<Seq<u8>> {
    Seq::new(values.len(), |i: int| values[i]@)
}

impl View for Exchange {
    type V = ExchangeView;

    closed spec fn view(&self) -> ExchangeView {
        ExchangeView {
            request: self.request,
            response: self.response,
            phase: self.phase,
            persistence: self.persistence,
            failed: self.failed,
            method: self.method@,
            upgrade: self.upgrade,
            offered_protocols: texts(self.offered_protocols@),
            informational: self.informational as nat,
            max_informational: self.max_informational as nat,
            waiting_continue: self.waiting_continue,
        }
    }
}

impl ExchangeView {
    /// What holds of every exchange: informational responses stay within their
    /// budget, a direction that stopped or was aborted has failed the exchange, a
    /// response is complete only behind its head, and the connection turns only
    /// into what the request asked for.
    pub open spec fn wf(self) -> bool {
        &&& self.informational <= self.max_informational
        &&& !self.failed ==> (self.request == Progress::Active || self.request
            == Progress::Complete) && (self.response == Progress::Active || self.response
            == Progress::Complete)
        &&& self.failed ==> self.request != Progress::Active && self.response != Progress::Active
        &&& self.response == Progress::Complete ==> self.phase != ResponsePhase::AwaitingHead
        &&& self.phase matches ResponsePhase::Upgrade(kind) ==> self.upgrade == Some(kind)
        &&& self.phase != ResponsePhase::AwaitingHead ==> !self.waiting_continue
    }

    /// The exchange once it has failed: what was under way is to stop.
    pub open spec fn aborted(self) -> ExchangeView {
        ExchangeView {
            failed: true,
            request: self.request.stopped(),
            response: self.response.stopped(),
            ..self
        }
    }

    /// What becomes of the connection: nothing until both directions have
    /// settled, and it lasts only where nothing failed and nobody closes it.
    pub open spec fn result(self) -> Outcome {
        if !self.request.is_settled() || !self.response.is_settled() {
            Outcome::Active
        } else if self.failed {
            Outcome::Close
        } else if let ResponsePhase::Upgrade(kind) = self.phase {
            Outcome::Handoff(kind)
        } else if self.persistence == Persistence::Reusable {
            Outcome::Reusable
        } else {
            Outcome::Close
        }
    }

    pub open spec fn body_allowed(self) -> bool {
        self.request == Progress::Active && !self.waiting_continue
    }

    /// The exchange with a direction settled.
    pub open spec fn with_settled(self, direction: Direction, clean: bool) -> ExchangeView {
        let progress = if clean {
            Progress::Complete
        } else {
            Progress::Aborted
        };
        let settled = match direction {
            Direction::Request => ExchangeView { request: progress, ..self },
            Direction::Response => ExchangeView { response: progress, ..self },
        };
        if clean {
            settled
        } else {
            settled.aborted()
        }
    }

    /// Whether a direction can settle: it has not before, and a response is
    /// clean only behind its head.
    pub open spec fn may_settle(self, direction: Direction, clean: bool) -> bool {
        match direction {
            Direction::Request => !self.request.is_settled(),
            Direction::Response => !self.response.is_settled() && !(clean && self.phase
                == ResponsePhase::AwaitingHead),
        }
    }
}

/// The exchange that a request starts.
pub open spec fn started(request: RequestMeaning, max_informational: nat) -> ExchangeView {
    ExchangeView {
        request: Progress::Active,
        response: Progress::Active,
        phase: ResponsePhase::AwaitingHead,
        persistence: request.persistence,
        failed: false,
        method: request.head.method,
        upgrade: request.upgrade,
        offered_protocols: if request.upgrade == Some(UpgradeKind::Protocol) {
            fields::values_of(request.head.headers, fields::named("upgrade"))
        } else {
            Seq::empty()
        },
        informational: 0,
        max_informational,
        waiting_continue: request.expectation == Expectation::Continue,
    }
}

/// An error without a cause.
pub open spec fn plain_error(kind: ErrorKind, context: &'static str) -> Error {
    Error { kind, context, source: None }
}

/// Whether a response turns the connection into what the request asked for.
pub open spec fn upgrade_agreed(
    exchange: ExchangeView,
    upgrade: UpgradeKind,
    headers: Seq<(Seq<u8>, Seq<Seq<u8>>)>,
) -> bool {
    exchange.upgrade == Some(upgrade) && (upgrade == UpgradeKind::Protocol ==> validate::protocols_match(
        exchange.offered_protocols,
        fields::values_of(headers, fields::named("upgrade")),
    ))
}

/// Whether an exchange still awaits its response head.
pub open spec fn awaits_head(exchange: ExchangeView) -> bool {
    !exchange.failed && exchange.phase == ResponsePhase::AwaitingHead
}

/// What a response head that is understood calls for and what it makes of an
/// exchange that awaits it, or why it is refused.
pub open spec fn admitted(exchange: ExchangeView, meaning: ResponseMeaning) -> Result<
    (HeadAction, ExchangeView),
    Error,
> {
    if let Some(upgrade) = meaning.upgrade {
        if upgrade_agreed(exchange, upgrade, meaning.head.headers) {
            Ok(
                (
                    HeadAction::Upgrade(upgrade),
                    ExchangeView {
                        phase: ResponsePhase::Upgrade(upgrade),
                        waiting_continue: false,
                        ..exchange
                    },
                ),
            )
        } else {
            Err(plain_error(ErrorKind::Upgrade, "response did not match the requested upgrade"))
        }
    } else if 100 <= meaning.head.status < 200 {
        if exchange.informational == exchange.max_informational {
            Err(plain_error(ErrorKind::Limit, "too many informational responses"))
        } else {
            Ok(
                (
                    HeadAction::Informational,
                    ExchangeView {
                        informational: exchange.informational + 1,
                        waiting_continue: exchange.waiting_continue && meaning.head.status != 100,
                        ..exchange
                    },
                ),
            )
        }
    } else {
        Ok(
            (
                HeadAction::Final,
                ExchangeView {
                    phase: ResponsePhase::Final,
                    waiting_continue: false,
                    persistence: if meaning.persistence == Persistence::Close {
                        Persistence::Close
                    } else {
                        exchange.persistence
                    },
                    ..exchange
                },
            ),
        )
    }
}

/// What a response head means, what it calls for and what it makes of the
/// exchange, or why it is refused.
pub open spec fn accepted(exchange: ExchangeView, head: ResponseView) -> Result<
    (ResponseMeaning, HeadAction, ExchangeView),
    Error,
> {
    if !awaits_head(exchange) {
        Err(plain_error(ErrorKind::InvalidMessage, "response head after final response"))
    } else {
        match validate::response_meaning(head, exchange.method) {
            Err(error) => Err(error::head_failure(error)),
            Ok(meaning) => match admitted(exchange, meaning) {
                Ok((action, next)) => Ok((meaning, action, next)),
                Err(error) => Err(error),
            },
        }
    }
}

/// What a response head that is sent calls for and what it makes of the exchange,
/// or why it may not be sent.
pub open spec fn sent(exchange: ExchangeView, meaning: ResponseMeaning) -> Result<
    (HeadAction, ExchangeView),
    Error,
> {
    if !awaits_head(exchange) {
        Err(plain_error(ErrorKind::InvalidMessage, "response head after final response"))
    } else {
        admitted(exchange, meaning)
    }
}

/// Whether a result is what a response head amounts to.
pub open spec fn head_result(
    result: Result<(ValidatedResponseHead, HeadAction), Error>,
    expected: Result<(ResponseMeaning, HeadAction, ExchangeView), Error>,
) -> bool {
    match (result, expected) {
        (Ok((head, action)), Ok((meaning, expected_action, _))) => head@ == meaning && action
            == expected_action,
        (Err(error), Err(refusal)) => error == refusal,
        _ => false,
    }
}

fn copies(values: &Vec<&[u8]>) -> (result: Vec<Vec<u8>>)
    ensures
        texts(result@) == fields::views(values@),
{
    let mut result: Vec<Vec<u8>> = Vec::new();
    for index in 0..values.len()
        invariant
            texts(result@) == fields::views(values@.take(index as int)),
            result@.len() == index,
    {
        result.push(copied(values[index]));
        proof {
            assert(texts(result@) =~= fields::views(values@.take(index + 1))) by {
                assert forall|i: int| 0 <= i < index implies texts(result@)[i] == fields::views(
                    values@.take(index + 1),
                )[i] by {
                    assert(texts(result@)[i] == fields::views(values@.take(index as int))[i]);
                }
            }
        }
    }
    assert(values@.take(values@.len() as int) =~= values@);
    result
}

fn slices(values: &Vec<Vec<u8>>) -> (result: Vec<&[u8]>)
    ensures
        fields::views(result@) == texts(values@),
{
    let mut result: Vec<&[u8]> = Vec::new();
    for index in 0..values.len()
        invariant
            result@.len() == index,
            forall|i: int| 0 <= i < index ==> (#[trigger] result@[i])@ == values@[i]@,
    {
        result.push(values[index].as_slice());
    }
    assert(fields::views(result@) =~= texts(values@));
    result
}

impl Exchange {
    /// Starts the exchange of a request.
    pub fn new(request: &ValidatedRequestHead, max_informational: usize) -> (result: Self)
        ensures
            result@ == started(request@, max_informational as nat),
            result@.wf(),
    {
        let offered_protocols = match request.upgrade {
            Some(UpgradeKind::Protocol) => copies(&fields::values(&request.head.headers, "upgrade")),
            _ => Vec::new(),
        };
        let result = Exchange {
            request: Progress::Active,
            response: Progress::Active,
            phase: ResponsePhase::AwaitingHead,
            persistence: request.persistence,
            failed: false,
            method: request.head.method.copy(),
            upgrade: request.upgrade,
            offered_protocols,
            informational: 0,
            max_informational,
            waiting_continue: request.expectation == Expectation::Continue,
        };
        assert(texts(result.offered_protocols@) =~= started(
            request@,
            max_informational as nat,
        ).offered_protocols);
        result
    }

    /// Determines what a peer's response head means in the context of its
    /// request. A final response permits an upload that waits for permission to
    /// proceed; it does not cancel that upload. A head that is refused fails the
    /// exchange.
    pub fn receive_head(&mut self, head: ResponseHead) -> (result: Result<
        (ValidatedResponseHead, HeadAction),
        Error,
    >)
        requires
            old(self)@.wf(),
        ensures
            final(self)@.wf(),
            head_result(result, accepted(old(self)@, head@)),
            final(self)@ == (match accepted(old(self)@, head@) {
                Ok((_, _, next)) => next,
                Err(_) => old(self)@.aborted(),
            }),
    {
        match self.accept_head(head) {
            Ok(accepted) => Ok(accepted),
            Err(error) => {
                self.abort();
                Err(error)
            },
        }
    }

    fn accept_head(&mut self, head: ResponseHead) -> (result: Result<
        (ValidatedResponseHead, HeadAction),
        Error,
    >)
        requires
            old(self)@.wf(),
        ensures
            head_result(result, accepted(old(self)@, head@)),
            final(self)@ == (match accepted(old(self)@, head@) {
                Ok((_, _, next)) => next,
                Err(_) => old(self)@,
            }),
            final(self)@.wf(),
    {
        if self.failed || self.phase != ResponsePhase::AwaitingHead {
            return Err(Error::new(ErrorKind::InvalidMessage, "response head after final response"));
        }
        match head.validate(&self.method) {
            Ok(head) => match self.enter(&head) {
                Ok(action) => Ok((head, action)),
                Err(error) => Err(error),
            },
            Err(error) => Err(Error::from(error)),
        }
    }

    /// Takes in a response head that is understood.
    fn enter(&mut self, head: &ValidatedResponseHead) -> (result: Result<HeadAction, Error>)
        requires
            old(self)@.wf(),
            awaits_head(old(self)@),
        ensures
            match admitted(old(self)@, head@) {
                Ok((action, next)) => result == Ok::<HeadAction, Error>(action) && final(self)@
                    == next,
                Err(error) => result == Err::<HeadAction, Error>(error) && final(self)@ == old(self)@,
            },
            final(self)@.wf(),
    {
        if let Some(upgrade) = head.upgrade {
            let asked = match (self.upgrade, upgrade) {
                (Some(UpgradeKind::Protocol), UpgradeKind::Protocol) => upgrade_protocols_match(
                    &slices(&self.offered_protocols),
                    &head.head.headers,
                ),
                (Some(UpgradeKind::Tunnel), UpgradeKind::Tunnel) => true,
                _ => false,
            };
            if !asked {
                return Err(
                    Error::new(ErrorKind::Upgrade, "response did not match the requested upgrade"),
                );
            }
            self.phase = ResponsePhase::Upgrade(upgrade);
            self.waiting_continue = false;
            return Ok(HeadAction::Upgrade(upgrade));
        }
        if head.head.status.is_informational() {
            if self.informational == self.max_informational {
                return Err(Error::new(ErrorKind::Limit, "too many informational responses"));
            }
            self.informational = self.informational + 1;
            if head.head.status.as_u16() == 100 {
                self.waiting_continue = false;
            }
            return Ok(HeadAction::Informational);
        }
        self.phase = ResponsePhase::Final;
        self.waiting_continue = false;
        if head.persistence == Persistence::Close {
            self.persistence = Persistence::Close;
        }
        Ok(HeadAction::Final)
    }

    /// Takes in a response head that is about to be sent. A head that may not be
    /// sent fails the exchange.
    pub fn sent_response(&mut self, head: &ValidatedResponseHead) -> (result: Result<
        HeadAction,
        Error,
    >)
        requires
            old(self)@.wf(),
        ensures
            final(self)@.wf(),
            match sent(old(self)@, head@) {
                Ok((action, next)) => result == Ok::<HeadAction, Error>(action) && final(self)@
                    == next,
                Err(error) => result == Err::<HeadAction, Error>(error) && final(self)@ == old(self)@.aborted(),
            },
    {
        if self.failed || self.phase != ResponsePhase::AwaitingHead {
            self.abort();
            return Err(Error::new(ErrorKind::InvalidMessage, "response head after final response"));
        }
        match self.enter(head) {
            Ok(action) => Ok(action),
            Err(error) => {
                self.abort();
                Err(error)
            },
        }
    }

    /// Ends a wait for permission, after a driver's decision to proceed.
    pub fn allow_request_body(&mut self)
        requires
            old(self)@.wf(),
        ensures
            final(self)@ == (ExchangeView { waiting_continue: false, ..old(self)@ }),
            final(self)@.wf(),
    {
        self.waiting_continue = false;
    }

    pub fn request_body_allowed(&self) -> (result: bool)
        ensures
            result == self@.body_allowed(),
    {
        self.request == Progress::Active && !self.waiting_continue
    }

    /// Prevents reuse without pretending that outstanding work has completed.
    pub fn close_after_exchange(&mut self)
        requires
            old(self)@.wf(),
        ensures
            final(self)@ == (ExchangeView { persistence: Persistence::Close, ..old(self)@ }),
            final(self)@.wf(),
    {
        self.persistence = Persistence::Close;
    }

    /// Fails the exchange. Work under way is asked to stop, and is not said to
    /// have stopped.
    pub fn abort(&mut self)
        requires
            old(self)@.wf(),
        ensures
            final(self)@ == old(self)@.aborted(),
            final(self)@.wf(),
    {
        self.failed = true;
        if self.request == Progress::Active {
            self.request = Progress::Stopping;
        }
        if self.response == Progress::Active {
            self.response = Progress::Stopping;
        }
    }

    /// Acknowledges that a direction has completed, with any operation of it.
    /// `clean` stands for a complete body whose producer ended well. A direction
    /// that settles twice, or a clean response without a head, fails the
    /// exchange.
    pub fn settle(&mut self, direction: Direction, clean: bool) -> (result: Result<(), Error>)
        requires
            old(self)@.wf(),
        ensures
            final(self)@.wf(),
            match result {
                Ok(()) => old(self)@.may_settle(direction, clean) && final(self)@
                    == old(self)@.with_settled(direction, clean),
                Err(error) => !old(self)@.may_settle(direction, clean) && final(self)@
                    == old(self)@.aborted() && error == plain_error(
                    ErrorKind::Internal,
                    "invalid exchange completion transition",
                ),
            },
    {
        let progress = match direction {
            Direction::Request => self.request,
            Direction::Response => self.response,
        };
        let headless = clean && direction == Direction::Response && self.phase
            == ResponsePhase::AwaitingHead;
        if progress.settled() || headless {
            self.abort();
            return Err(Error::new(ErrorKind::Internal, "invalid exchange completion transition"));
        }
        let settled = if clean {
            Progress::Complete
        } else {
            Progress::Aborted
        };
        match direction {
            Direction::Request => {
                self.request = settled;
            },
            Direction::Response => {
                self.response = settled;
            },
        }
        if !clean {
            self.failed = true;
            if self.request == Progress::Active {
                self.request = Progress::Stopping;
            }
            if self.response == Progress::Active {
                self.response = Progress::Stopping;
            }
        }
        Ok(())
    }

    pub fn outcome(&self) -> (result: Outcome)
        ensures
            result == self@.result(),
    {
        if !self.request.settled() || !self.response.settled() {
            return Outcome::Active;
        }
        if self.failed {
            return Outcome::Close;
        }
        if let ResponsePhase::Upgrade(kind) = self.phase {
            return Outcome::Handoff(kind);
        }
        match self.persistence {
            Persistence::Reusable => Outcome::Reusable,
            Persistence::Close => Outcome::Close,
        }
    }
}

/// A connection is used again only when both directions completed cleanly behind
/// a final response, nothing failed, and neither side closes it.
pub proof fn reuse_needs_both_directions(exchange: ExchangeView)
    requires
        exchange.wf(),
    ensures
        exchange.result() == Outcome::Reusable <==> {
            &&& exchange.request == Progress::Complete
            &&& exchange.response == Progress::Complete
            &&& !exchange.failed
            &&& exchange.phase == ResponsePhase::Final
            &&& exchange.persistence == Persistence::Reusable
        },
{
}

/// A connection is handed over only when both directions completed cleanly and
/// the response turned it into what the request asked for.
pub proof fn handoff_needs_matching_intent(exchange: ExchangeView, kind: UpgradeKind)
    requires
        exchange.wf(),
    ensures
        exchange.result() == Outcome::Handoff(kind) ==> {
            &&& exchange.request == Progress::Complete
            &&& exchange.response == Progress::Complete
            &&& !exchange.failed
            &&& exchange.upgrade == Some(kind)
        },
{
}

/// An abort neither completes a direction nor undoes its completion, and it ends
/// all hope of reuse: whatever settles later, the connection closes.
pub proof fn abort_claims_nothing(exchange: ExchangeView)
    requires
        exchange.wf(),
    ensures
        exchange.aborted().request.is_settled() == exchange.request.is_settled(),
        exchange.aborted().response.is_settled() == exchange.response.is_settled(),
        !exchange.aborted().body_allowed(),
        exchange.aborted().result() == Outcome::Active || exchange.aborted().result()
            == Outcome::Close,
        exchange.aborted().result() == Outcome::Active <==> !exchange.request.is_settled()
            || !exchange.response.is_settled(),
{
}

/// A failed exchange stays failed, and so never yields a connection that is used
/// again or handed over.
pub proof fn failure_is_permanent(
    exchange: ExchangeView,
    direction: Direction,
    clean: bool,
    head: ResponseView,
)
    requires
        exchange.wf(),
        exchange.failed,
    ensures
        exchange.with_settled(direction, clean).failed,
        exchange.aborted().failed,
        accepted(exchange, head) is Err,
        exchange.result() == Outcome::Active || exchange.result() == Outcome::Close,
{
}

/// The order in which the directions settle does not matter.
pub proof fn settling_order_does_not_matter(exchange: ExchangeView, request: bool, response: bool)
    requires
        exchange.wf(),
        exchange.may_settle(Direction::Request, request),
        exchange.may_settle(Direction::Response, response),
    ensures
        exchange.with_settled(Direction::Request, request).with_settled(
            Direction::Response,
            response,
        ) == exchange.with_settled(Direction::Response, response).with_settled(
            Direction::Request,
            request,
        ),
        exchange.with_settled(Direction::Request, request).result() == Outcome::Active
            || exchange.response.is_settled(),
{
}

/// Reuse is never regained: no response head turns a connection that is to be
/// closed into one that is kept.
pub proof fn close_is_never_undone(exchange: ExchangeView, head: ResponseView)
    requires
        exchange.wf(),
        exchange.persistence == Persistence::Close,
    ensures
        accepted(exchange, head) matches Ok((_, _, next)) ==> next.persistence
            == Persistence::Close,
{
}

} // verus!
