//! The capacity-one handoff between a connection and a body.
//!
//! A connection offers one item at a time and a body takes it. Each operation
//! here is one poll of the side that asks: it changes the shared state, keeps
//! the handle by which the asking side is woken, and names the side to wake.

use vstd::multiset::Multiset;
use vstd::prelude::*;

verus! {

/// What stands between the two sides.
#[derive(Debug)]
pub enum State<T, E> {
    /// Nobody asked and nothing is offered.
    Idle,
    /// The consumer asked for an item.
    Demanded,
    /// An item waits for the consumer.
    Offered(T),
    /// The producer ended well, or its end has been reported.
    Closed,
    /// The producer went away without an end.
    Disconnected,
    /// The producer failed.
    Failed(E),
    /// The consumer went away. An item that it left behind is kept for the
    /// producer.
    Abandoned(Option<T>),
}

impl<T, E> State<T, E> {
    /// The item that the state holds.
    pub open spec fn item(self) -> Option<T> {
        match self {
            State::Offered(item) => Some(item),
            State::Abandoned(item) => item,
            _ => None,
        }
    }

    pub open spec fn is_ended(self) -> bool {
        self is Closed || self is Disconnected || self is Failed
    }

    pub open spec fn is_open(self) -> bool {
        self is Idle || self is Demanded
    }
}

/// Whether an operation has an answer yet.
#[derive(Debug, PartialEq, Eq)]
pub enum Wait<R> {
    Pending,
    Ready(R),
}

/// Why waiting for body demand could not continue.
#[derive(Clone, Copy, Debug, PartialEq, Eq, Structural)]
pub enum DemandError {
    Abandoned,
    Closed,
}

/// An offered item returned because the consumer could not accept it.
#[derive(Debug, PartialEq, Eq)]
pub enum OfferError<T> {
    Abandoned(T),
    Closed(T),
}

/// Explicit failure and an unfinished producer are distinct from a clean end.
#[derive(Debug, PartialEq, Eq)]
pub enum TakeError<E> {
    Failed(E),
    Disconnected,
}

/// The state that both sides share, with the handles `W` by which they are
/// woken.
#[derive(Debug)]
pub struct Rendezvous<T, E, W> {
    pub state: State<T, E>,
    pub producer_waker: Option<W>,
    pub consumer_waker: Option<W>,
    /// The wire bytes and payload bytes that a draining consumer still accepts.
    pub drain_remaining: Option<(u64, u64)>,
    /// Whether the consumer has seen the end.
    pub consumed: bool,
    /// Whether the producer has reported its end.
    pub finished: bool,
}

/// The state after the consumer asked for an item.
pub open spec fn state_after_take<T, E>(state: State<T, E>) -> State<T, E> {
    match state {
        State::Idle | State::Demanded => State::Demanded,
        State::Offered(_) => State::Idle,
        State::Closed | State::Disconnected | State::Failed(_) => State::Closed,
        State::Abandoned(item) => State::Abandoned(item),
    }
}

/// What the consumer is told when it asks for an item.
pub open spec fn take_answer<T, E>(state: State<T, E>) -> Wait<Result<Option<T>, TakeError<E>>> {
    match state {
        State::Offered(item) => Wait::Ready(Ok(Some(item))),
        State::Closed => Wait::Ready(Ok(None)),
        State::Failed(error) => Wait::Ready(Err(TakeError::Failed(error))),
        State::Disconnected => Wait::Ready(Err(TakeError::Disconnected)),
        _ => Wait::Pending,
    }
}

/// What the producer is told when it asks for demand.
pub open spec fn demand_answer<T, E>(state: State<T, E>) -> Wait<Result<(), DemandError>> {
    match state {
        State::Idle => Wait::Pending,
        State::Demanded | State::Offered(_) => Wait::Ready(Ok(())),
        State::Abandoned(_) => Wait::Ready(Err(DemandError::Abandoned)),
        _ => Wait::Ready(Err(DemandError::Closed)),
    }
}

/// What the producer is told when it offers an item.
pub open spec fn offer_answer<T, E>(state: State<T, E>, item: T) -> Wait<Result<(), OfferError<T>>> {
    match state {
        State::Abandoned(_) => Wait::Ready(Err(OfferError::Abandoned(item))),
        State::Closed | State::Disconnected | State::Failed(_) => {
            Wait::Ready(Err(OfferError::Closed(item)))
        },
        _ => Wait::Pending,
    }
}

/// What the producer is told when it asks what became of its offer.
pub open spec fn offered_answer<T, E>(state: State<T, E>) -> Wait<Result<(), OfferError<T>>> {
    match state {
        State::Offered(_) => Wait::Pending,
        State::Abandoned(Some(item)) => Wait::Ready(Err(OfferError::Abandoned(item))),
        _ => Wait::Ready(Ok(())),
    }
}

/// The state once the item that it holds has been given back.
pub open spec fn without_item<T, E>(state: State<T, E>) -> State<T, E> {
    match state {
        State::Offered(_) => State::Idle,
        State::Abandoned(_) => State::Abandoned(None),
        _ => state,
    }
}

/// The state once the consumer has gone away.
pub open spec fn abandoned_state<T, E>(state: State<T, E>) -> State<T, E> {
    match state {
        State::Offered(item) => State::Abandoned(Some(item)),
        State::Idle | State::Demanded => State::Abandoned(None),
        _ => state,
    }
}

/// What is left of a draining budget, or that it does not suffice.
pub open spec fn charged(
    remaining: Option<(u64, u64)>,
    bytes: nat,
    payload: nat,
) -> Option<Option<(u64, u64)>> {
    match remaining {
        None => Some(None),
        Some((wire, data)) => if bytes <= wire && payload <= data {
            Some(Some(((wire - bytes) as u64, (data - payload) as u64)))
        } else {
            None
        },
    }
}

/// The budget of a consumer that drains: so many payload bytes, and as many wire
/// bytes with an allowance on top.
pub open spec fn granted(bytes: u64, wire_allowance: u64) -> (u64, u64) {
    (
        if bytes + wire_allowance <= u64::MAX {
            (bytes + wire_allowance) as u64
        } else {
            u64::MAX
        },
        bytes,
    )
}

/// What several charges, each of wire bytes and of the payload among them, leave of
/// a budget, or that it does not suffice.
pub open spec fn charged_all(remaining: (u64, u64), charges: Seq<(nat, nat)>) -> Option<(u64, u64)>
    decreases charges.len(),
{
    if charges.len() == 0 {
        Some(remaining)
    } else {
        match charged_all(remaining, charges.drop_last()) {
            Some(left) => match charged(Some(left), charges.last().0, charges.last().1) {
                Some(left) => left,
                None => None,
            },
            None => None,
        }
    }
}

/// The wire bytes of several charges.
pub open spec fn wire_total(charges: Seq<(nat, nat)>) -> nat
    decreases charges.len(),
{
    if charges.len() == 0 {
        0
    } else {
        wire_total(charges.drop_last()) + charges.last().0
    }
}

/// The payload bytes of several charges.
pub open spec fn payload_total(charges: Seq<(nat, nat)>) -> nat
    decreases charges.len(),
{
    if charges.len() == 0 {
        0
    } else {
        payload_total(charges.drop_last()) + charges.last().1
    }
}

/// Charges are taken exactly as long as they fit together: what a draining consumer
/// is charged stays within its payload limit, and its wire bytes within that limit
/// and the allowance on top.
pub proof fn drain_stays_within_budget(bytes: u64, wire_allowance: u64, charges: Seq<(nat, nat)>)
    ensures
        charged_all(granted(bytes, wire_allowance), charges) is Some <==> {
            &&& wire_total(charges) <= granted(bytes, wire_allowance).0
            &&& payload_total(charges) <= bytes
        },
        charged_all(granted(bytes, wire_allowance), charges) is Some ==> wire_total(charges)
            <= bytes + wire_allowance,
{
    charges_add_up(granted(bytes, wire_allowance), charges);
}

proof fn charges_add_up(remaining: (u64, u64), charges: Seq<(nat, nat)>)
    ensures
        charged_all(remaining, charges) == (if wire_total(charges) <= remaining.0
            && payload_total(charges) <= remaining.1 {
            Some(
                (
                    (remaining.0 - wire_total(charges)) as u64,
                    (remaining.1 - payload_total(charges)) as u64,
                ),
            )
        } else {
            None
        }),
    decreases charges.len(),
{
    if charges.len() > 0 {
        charges_add_up(remaining, charges.drop_last());
    }
}

impl<T, E, W> Rendezvous<T, E, W> {
    /// What holds between operations: the consumer has seen the end only of a
    /// producer that has ended, and a producer that reported its end offers
    /// nothing more.
    pub open spec fn wf(self) -> bool {
        &&& self.consumed ==> self.state is Closed
        &&& self.finished ==> self.state.is_ended() || self.state is Abandoned
    }

    /// Creates the connection-local, capacity-one body rendezvous.
    pub fn new() -> (result: Self)
        ensures
            result == (Rendezvous::<T, E, W> {
                state: State::Idle,
                producer_waker: None,
                consumer_waker: None,
                drain_remaining: None,
                consumed: false,
                finished: false,
            }),
            result.wf(),
    {
        Rendezvous {
            state: State::Idle,
            producer_waker: None,
            consumer_waker: None,
            drain_remaining: None,
            consumed: false,
            finished: false,
        }
    }

    /// Puts a state in place and hands out the one that stood there.
    fn replace(&mut self, state: State<T, E>) -> (result: State<T, E>)
        ensures
            result == old(self).state,
            *final(self) == (Rendezvous { state, ..*old(self) }),
    {
        let mut other = state;
        std::mem::swap(&mut self.state, &mut other);
        other
    }

    /// Charges consumed framing bytes, and the payload among them, once a
    /// consumer opted into draining. Without enough left nothing is charged.
    pub fn charge_drain(&mut self, bytes: usize, payload: usize) -> (result: bool)
        ensures
            result == (charged(old(self).drain_remaining, bytes as nat, payload as nat) is Some),
            *final(self) == (Rendezvous {
                drain_remaining: match charged(
                    old(self).drain_remaining,
                    bytes as nat,
                    payload as nat,
                ) {
                    Some(remaining) => remaining,
                    None => old(self).drain_remaining,
                },
                ..*old(self)
            }),
    {
        let (wire, data) = match self.drain_remaining {
            Some(remaining) => remaining,
            None => return true,
        };
        if bytes as u64 > wire || payload as u64 > data {
            return false;
        }
        self.drain_remaining = Some((wire - bytes as u64, data - payload as u64));
        true
    }

    /// Bounds what a draining consumer accepts: so many payload bytes, and as
    /// many wire bytes with an allowance on top.
    pub fn drain_budget(&mut self, bytes: u64, wire_allowance: u64)
        ensures
            *final(self) == (Rendezvous {
                drain_remaining: Some(granted(bytes, wire_allowance)),
                ..*old(self)
            }),
    {
        self.drain_remaining = Some((bytes.saturating_add(wire_allowance), bytes));
    }

    /// Asks whether the consumer wants another item.
    pub fn demand(&mut self, waker: W) -> (result: Wait<Result<(), DemandError>>)
        ensures
            result == demand_answer(old(self).state),
            *final(self) == (Rendezvous {
                producer_waker: if result is Pending {
                    Some(waker)
                } else {
                    old(self).producer_waker
                },
                ..*old(self)
            }),
    {
        match &self.state {
            State::Demanded => Wait::Ready(Ok(())),
            State::Idle => {
                self.producer_waker = Some(waker);
                Wait::Pending
            },
            State::Abandoned(_) => Wait::Ready(Err(DemandError::Abandoned)),
            State::Closed | State::Disconnected | State::Failed(_) => {
                Wait::Ready(Err(DemandError::Closed))
            },
            State::Offered(_) => Wait::Ready(Ok(())),
        }
    }

    /// Offers one item. It waits until the consumer takes or abandons it; a
    /// consumer that waits is named to be woken.
    pub fn offer(&mut self, item: T, waker: W) -> (result: (
        Wait<Result<(), OfferError<T>>>,
        Option<W>,
    ))
        requires
            !(old(self).state is Offered),
            old(self).wf(),
        ensures
            result.0 == offer_answer(old(self).state, item),
            final(self).wf(),
            result.0 is Pending ==> result.1 == old(self).consumer_waker && *final(self) == (
            Rendezvous {
                state: State::Offered(item),
                producer_waker: Some(waker),
                consumer_waker: None,
                ..*old(self)
            }),
            !(result.0 is Pending) ==> result.1 is None && *final(self) == *old(self),
    {
        match &self.state {
            State::Abandoned(_) => {
                return (Wait::Ready(Err(OfferError::Abandoned(item))), None);
            },
            State::Closed | State::Disconnected | State::Failed(_) => {
                return (Wait::Ready(Err(OfferError::Closed(item))), None);
            },
            _ => {},
        }
        self.state = State::Offered(item);
        self.producer_waker = Some(waker);
        let wake = self.consumer_waker.take();
        (Wait::Pending, wake)
    }

    /// Asks what became of the item that was offered.
    pub fn offered(&mut self, waker: W) -> (result: Wait<Result<(), OfferError<T>>>)
        requires
            !old(self).state.is_ended(),
            old(self).wf(),
        ensures
            result == offered_answer(old(self).state),
            final(self).wf(),
            *final(self) == (Rendezvous {
                state: if result is Pending {
                    old(self).state
                } else {
                    without_item(old(self).state)
                },
                producer_waker: if result is Pending {
                    Some(waker)
                } else {
                    old(self).producer_waker
                },
                ..*old(self)
            }),
    {
        match &self.state {
            State::Offered(_) => {
                self.producer_waker = Some(waker);
                return Wait::Pending;
            },
            State::Abandoned(_) => {},
            _ => return Wait::Ready(Ok(())),
        }
        match self.replace(State::Abandoned(None)) {
            State::Abandoned(Some(item)) => Wait::Ready(Err(OfferError::Abandoned(item))),
            _ => Wait::Ready(Ok(())),
        }
    }

    /// Withdraws an offer that was made: the item comes back, and a consumer
    /// that waits is named to be woken where the item was not yet taken.
    pub fn withdraw(&mut self) -> (result: (Option<T>, Option<W>))
        requires
            old(self).wf(),
        ensures
            result.0 == old(self).state.item(),
            result.1 == (if old(self).state is Offered {
                old(self).consumer_waker
            } else {
                None
            }),
            final(self).wf(),
            *final(self) == (Rendezvous {
                state: without_item(old(self).state),
                producer_waker: None,
                consumer_waker: if old(self).state is Offered {
                    None
                } else {
                    old(self).consumer_waker
                },
                ..*old(self)
            }),
    {
        self.producer_waker = None;
        match self.replace(State::Idle) {
            State::Offered(item) => {
                let wake = self.consumer_waker.take();
                (Some(item), wake)
            },
            State::Abandoned(item) => {
                self.state = State::Abandoned(None);
                (item, None)
            },
            other => {
                self.state = other;
                (None, None)
            },
        }
    }

    /// Forgets a producer that no longer waits.
    pub fn producer_left(&mut self)
        ensures
            *final(self) == (Rendezvous { producer_waker: None, ..*old(self) }),
    {
        self.producer_waker = None;
    }

    /// Forgets a consumer that no longer waits. What it asked for stays asked.
    pub fn consumer_left(&mut self)
        ensures
            *final(self) == (Rendezvous { consumer_waker: None, ..*old(self) }),
    {
        self.consumer_waker = None;
    }

    /// Asks for the next item or the end of the producer; a producer that waits
    /// is named to be woken.
    pub fn take(&mut self, waker: W) -> (result: (
        Wait<Result<Option<T>, TakeError<E>>>,
        Option<W>,
    ))
        requires
            !(old(self).state is Abandoned),
            old(self).wf(),
        ensures
            result.0 == take_answer(old(self).state),
            result.1 == (if old(self).state.is_ended() {
                None
            } else {
                old(self).producer_waker
            }),
            final(self).wf(),
            *final(self) == (Rendezvous {
                state: state_after_take(old(self).state),
                producer_waker: if old(self).state.is_ended() {
                    old(self).producer_waker
                } else {
                    None
                },
                consumer_waker: if old(self).state.is_open() {
                    Some(waker)
                } else {
                    old(self).consumer_waker
                },
                consumed: old(self).consumed || old(self).state.is_ended(),
                ..*old(self)
            }),
    {
        match self.replace(State::Idle) {
            State::Idle | State::Demanded => {
                self.state = State::Demanded;
                self.consumer_waker = Some(waker);
                let wake = self.producer_waker.take();
                (Wait::Pending, wake)
            },
            State::Offered(item) => {
                let wake = self.producer_waker.take();
                (Wait::Ready(Ok(Some(item))), wake)
            },
            State::Closed => {
                self.state = State::Closed;
                self.consumed = true;
                (Wait::Ready(Ok(None)), None)
            },
            State::Failed(error) => {
                self.state = State::Closed;
                self.consumed = true;
                (Wait::Ready(Err(TakeError::Failed(error))), None)
            },
            State::Disconnected => {
                self.state = State::Closed;
                self.consumed = true;
                (Wait::Ready(Err(TakeError::Disconnected)), None)
            },
            State::Abandoned(item) => {
                self.state = State::Abandoned(item);
                (Wait::Pending, None)
            },
        }
    }

    /// Asks whether the consumer went away before the end.
    pub fn abandoned(&mut self, waker: W) -> (result: Wait<()>)
        ensures
            result == (if old(self).state is Abandoned {
                Wait::Ready(())
            } else {
                Wait::Pending
            }),
            *final(self) == (Rendezvous {
                producer_waker: if result is Pending {
                    Some(waker)
                } else {
                    old(self).producer_waker
                },
                ..*old(self)
            }),
    {
        if self.is_abandoned() {
            Wait::Ready(())
        } else {
            self.producer_waker = Some(waker);
            Wait::Pending
        }
    }

    /// Returns whether the consumer endpoint has been abandoned.
    pub fn is_abandoned(&self) -> (result: bool)
        ensures
            result == (self.state is Abandoned),
    {
        match &self.state {
            State::Abandoned(_) => true,
            _ => false,
        }
    }

    /// Ends the body normally; a consumer that waits is named to be woken.
    pub fn close(&mut self) -> (result: Option<W>)
        requires
            !(old(self).state is Offered),
            old(self).wf(),
        ensures
            finishes(*old(self), *final(self), State::Closed, result),
            final(self).wf(),
    {
        self.finish(State::Closed)
    }

    /// Ends the body with an error; a consumer that waits is named to be woken.
    pub fn fail(&mut self, error: E) -> (result: Option<W>)
        requires
            !(old(self).state is Offered),
            old(self).wf(),
        ensures
            finishes(*old(self), *final(self), State::Failed(error), result),
            final(self).wf(),
    {
        self.finish(State::Failed(error))
    }

    /// The producer goes away. Without an end before, the consumer is told that
    /// it did.
    pub fn disconnect(&mut self) -> (result: Option<W>)
        requires
            !(old(self).state is Offered),
            old(self).wf(),
        ensures
            finishes(*old(self), *final(self), State::Disconnected, result),
            final(self).wf(),
    {
        self.finish(State::Disconnected)
    }

    fn finish(&mut self, terminal: State<T, E>) -> (result: Option<W>)
        requires
            !(old(self).state is Offered),
            terminal.is_ended(),
            old(self).wf(),
        ensures
            finishes(*old(self), *final(self), terminal, result),
            final(self).wf(),
    {
        if self.finished {
            return None;
        }
        self.finished = true;
        let open = match &self.state {
            State::Idle | State::Demanded => true,
            _ => false,
        };
        if open {
            self.state = terminal;
            self.consumer_waker.take()
        } else {
            None
        }
    }

    /// The consumer goes away. An item that waits for it is kept for the
    /// producer, which is named to be woken.
    pub fn abandon(&mut self) -> (result: Option<W>)
        requires
            old(self).wf(),
        ensures
            final(self).wf(),
            result == (if old(self).state.is_ended() {
                None
            } else {
                old(self).producer_waker
            }),
            *final(self) == (Rendezvous {
                state: abandoned_state(old(self).state),
                producer_waker: if old(self).state.is_ended() {
                    old(self).producer_waker
                } else {
                    None
                },
                ..*old(self)
            }),
    {
        if self.consumed {
            return None;
        }
        let offered = match self.replace(State::Abandoned(None)) {
            State::Offered(item) => Some(item),
            State::Abandoned(item) => item,
            State::Idle | State::Demanded => None,
            ended => {
                self.state = ended;
                return None;
            },
        };
        self.state = State::Abandoned(offered);
        self.producer_waker.take()
    }
}

/// Whether a producer's end turned one rendezvous into another and named this
/// side to wake: only the first end counts, and only where the consumer is
/// still there.
pub open spec fn finishes<T, E, W>(
    before: Rendezvous<T, E, W>,
    after: Rendezvous<T, E, W>,
    terminal: State<T, E>,
    wake: Option<W>,
) -> bool {
    let told = !before.finished && before.state.is_open();
    &&& wake == (if told {
        before.consumer_waker
    } else {
        None
    })
    &&& after == (Rendezvous {
        state: if told {
            terminal
        } else {
            before.state
        },
        consumer_waker: if told {
            None
        } else {
            before.consumer_waker
        },
        finished: true,
        ..before
    })
}

/// An operation on the shared state.
pub enum Operation<T, E> {
    Demand,
    Offer(T),
    Offered,
    Withdraw,
    Take,
    Close,
    Fail(E),
    Disconnect,
    Abandon,
}

/// The state that an operation leaves, where it may be performed.
pub open spec fn stepped<T, E>(state: State<T, E>, operation: Operation<T, E>) -> State<T, E> {
    match operation {
        Operation::Demand => state,
        Operation::Offer(item) => if state.is_open() {
            State::Offered(item)
        } else {
            state
        },
        Operation::Offered => if state is Offered {
            state
        } else {
            without_item(state)
        },
        Operation::Withdraw => without_item(state),
        Operation::Take => state_after_take(state),
        Operation::Close => if state.is_open() {
            State::Closed
        } else {
            state
        },
        Operation::Fail(error) => if state.is_open() {
            State::Failed(error)
        } else {
            state
        },
        Operation::Disconnect => if state.is_open() {
            State::Disconnected
        } else {
            state
        },
        Operation::Abandon => abandoned_state(state),
    }
}

/// Whether an operation may be performed.
pub open spec fn performable<T, E>(state: State<T, E>, operation: Operation<T, E>) -> bool {
    match operation {
        Operation::Offer(_) | Operation::Close | Operation::Fail(_) | Operation::Disconnect => {
            !(state is Offered)
        },
        Operation::Offered => !state.is_ended(),
        Operation::Take => !(state is Abandoned),
        _ => true,
    }
}

pub open spec fn one<T>(item: Option<T>) -> Multiset<T> {
    match item {
        Some(item) => Multiset::singleton(item),
        None => Multiset::empty(),
    }
}

/// The items that an operation brings in.
pub open spec fn brought<T, E>(operation: Operation<T, E>) -> Multiset<T> {
    match operation {
        Operation::Offer(item) => Multiset::singleton(item),
        _ => Multiset::empty(),
    }
}

/// The items that an operation hands out, to either side.
pub open spec fn handed<T, E>(state: State<T, E>, operation: Operation<T, E>) -> Multiset<T> {
    match operation {
        Operation::Offer(item) => if offer_answer(state, item) is Pending {
            Multiset::empty()
        } else {
            Multiset::singleton(item)
        },
        Operation::Offered => match offered_answer(state) {
            Wait::Ready(Err(OfferError::Abandoned(item))) => Multiset::singleton(item),
            _ => Multiset::empty(),
        },
        Operation::Withdraw => one(state.item()),
        Operation::Take => match take_answer(state) {
            Wait::Ready(Ok(item)) => one(item),
            _ => Multiset::empty(),
        },
        _ => Multiset::empty(),
    }
}

pub open spec fn state_after<T, E>(
    state: State<T, E>,
    operations: Seq<Operation<T, E>>,
) -> State<T, E>
    decreases operations.len(),
{
    if operations.len() == 0 {
        state
    } else {
        stepped(state_after(state, operations.drop_last()), operations.last())
    }
}

pub open spec fn all_performable<T, E>(
    state: State<T, E>,
    operations: Seq<Operation<T, E>>,
) -> bool
    decreases operations.len(),
{
    operations.len() > 0 ==> all_performable(state, operations.drop_last()) && performable(
        state_after(state, operations.drop_last()),
        operations.last(),
    )
}

pub open spec fn all_brought<T, E>(operations: Seq<Operation<T, E>>) -> Multiset<T>
    decreases operations.len(),
{
    if operations.len() == 0 {
        Multiset::empty()
    } else {
        all_brought(operations.drop_last()).add(brought(operations.last()))
    }
}

pub open spec fn all_handed<T, E>(
    state: State<T, E>,
    operations: Seq<Operation<T, E>>,
) -> Multiset<T>
    decreases operations.len(),
{
    if operations.len() == 0 {
        Multiset::empty()
    } else {
        all_handed(state, operations.drop_last()).add(
            handed(state_after(state, operations.drop_last()), operations.last()),
        )
    }
}

/// No item is lost and none is handed out twice: in every run, what was offered
/// is what was handed to either side and the one item that may still be held.
pub proof fn items_are_conserved<T, E>(state: State<T, E>, operations: Seq<Operation<T, E>>)
    requires
        all_performable(state, operations),
    ensures
        one(state.item()).add(all_brought(operations)) =~= all_handed(state, operations).add(
            one(state_after(state, operations).item()),
        ),
    decreases operations.len(),
{
    if operations.len() > 0 {
        items_are_conserved(state, operations.drop_last());
        let before = state_after(state, operations.drop_last());
        let last = operations.last();
        let held = one(before.item());
        let left = one(stepped(before, last).item());
        let handed_before = all_handed(state, operations.drop_last());
        let brought_before = all_brought(operations.drop_last());
        assert(held.add(brought(last)) =~= handed(before, last).add(left));
        assert(one(state.item()).add(brought_before.add(brought(last))) =~= one(state.item()).add(
            brought_before,
        ).add(brought(last)));
        assert(handed_before.add(held).add(brought(last)) =~= handed_before.add(
            held.add(brought(last)),
        ));
        assert(handed_before.add(handed(before, last).add(left)) =~= handed_before.add(
            handed(before, last),
        ).add(left));
    }
}

/// A clean end is reported only of a producer that closed: an unfinished
/// producer and a failed one are told apart from it, once.
pub proof fn end_is_reported_once<T, E>(state: State<T, E>)
    requires
        state.is_ended(),
    ensures
        take_answer(state) == Wait::Ready(Ok::<Option<T>, TakeError<E>>(None)) <==> state is Closed,
        take_answer(state_after_take(state)) == Wait::Ready(Ok::<Option<T>, TakeError<E>>(None)),
{
}

/// An end is never undone, whatever either side does afterwards.
pub proof fn end_is_final<T, E>(state: State<T, E>, operation: Operation<T, E>)
    requires
        state.is_ended(),
        performable(state, operation),
    ensures
        stepped(state, operation).is_ended(),
        !(operation is Take) ==> stepped(state, operation) == state,
{
}

} // verus!
