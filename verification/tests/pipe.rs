//! The handoff between a connection and a body.

use std::cell::Cell;
use std::rc::Rc;
use vakya::body::pipe::{DemandError, OfferError, Rendezvous, State, TakeError, Wait};

/// Counts how often a side was woken.
#[derive(Clone)]
struct Waker(Rc<Cell<usize>>);

impl Waker {
    fn new() -> Self {
        Waker(Rc::new(Cell::new(0)))
    }

    fn count(&self) -> usize {
        self.0.get()
    }
}

fn wake(waker: Option<Waker>) {
    if let Some(waker) = waker {
        waker.0.set(waker.0.get() + 1);
    }
}

type Pipe<T, E> = Rendezvous<T, E, Waker>;

fn take<T, E>(pipe: &mut Pipe<T, E>, waker: &Waker) -> Wait<Result<Option<T>, TakeError<E>>> {
    let (result, woken) = pipe.take(waker.clone());
    wake(woken);
    result
}

fn offer<T, E>(pipe: &mut Pipe<T, E>, item: T, waker: &Waker) -> Wait<Result<(), OfferError<T>>> {
    let (result, woken) = pipe.offer(item, waker.clone());
    wake(woken);
    result
}

#[test]
fn demand_before_offer_wakes_and_transfers_one_item() {
    let mut pipe = Pipe::<usize, &'static str>::new();
    let producer = Waker::new();
    let consumer = Waker::new();

    assert_eq!(pipe.demand(producer.clone()), Wait::Pending);
    assert_eq!(take(&mut pipe, &consumer), Wait::Pending);
    assert_eq!(producer.count(), 1);
    assert_eq!(pipe.demand(producer.clone()), Wait::Ready(Ok(())));
    pipe.producer_left();

    assert_eq!(offer(&mut pipe, 7, &producer), Wait::Pending);
    assert_eq!(consumer.count(), 1);
    assert_eq!(take(&mut pipe, &consumer), Wait::Ready(Ok(Some(7))));
    assert_eq!(pipe.offered(producer.clone()), Wait::Ready(Ok(())));
}

#[test]
fn offer_before_demand_waits_until_take() {
    let mut pipe = Pipe::<usize, ()>::new();
    let waker = Waker::new();

    assert_eq!(offer(&mut pipe, 11, &waker), Wait::Pending);
    assert_eq!(take(&mut pipe, &waker), Wait::Ready(Ok(Some(11))));
    assert_eq!(pipe.offered(waker.clone()), Wait::Ready(Ok(())));
}

#[test]
fn completion_and_failure_wake_waiting_consumer() {
    let mut pipe = Pipe::<(), &'static str>::new();
    let waker = Waker::new();
    assert_eq!(take(&mut pipe, &waker), Wait::Pending);
    wake(pipe.close());
    assert_eq!(waker.count(), 1);
    assert_eq!(take(&mut pipe, &waker), Wait::Ready(Ok(None)));

    let mut pipe = Pipe::<(), &'static str>::new();
    assert_eq!(take(&mut pipe, &waker), Wait::Pending);
    wake(pipe.fail("broken"));
    assert_eq!(take(&mut pipe, &waker), Wait::Ready(Err(TakeError::Failed("broken"))));
}

#[test]
fn consumer_abandonment_returns_the_offered_item() {
    let mut pipe = Pipe::<usize, ()>::new();
    let waker = Waker::new();
    assert_eq!(offer(&mut pipe, 19, &waker), Wait::Pending);

    wake(pipe.abandon());
    assert_eq!(waker.count(), 1);
    assert_eq!(
        pipe.offered(waker.clone()),
        Wait::Ready(Err(OfferError::Abandoned(19)))
    );
}

#[test]
fn abandonment_after_take_still_completes_the_offer() {
    let mut pipe = Pipe::<usize, ()>::new();
    let waker = Waker::new();
    assert_eq!(offer(&mut pipe, 23, &waker), Wait::Pending);
    assert_eq!(take(&mut pipe, &waker), Wait::Ready(Ok(Some(23))));
    pipe.consumer_left();

    wake(pipe.abandon());
    assert_eq!(pipe.offered(waker.clone()), Wait::Ready(Ok(())));
}

#[test]
fn cancellation_drops_an_offered_item_once_and_reopens_the_slot() {
    struct Counted(Rc<Cell<usize>>);
    impl Drop for Counted {
        fn drop(&mut self) {
            self.0.set(self.0.get() + 1);
        }
    }

    let drops = Rc::new(Cell::new(0));
    let mut pipe = Pipe::<Counted, ()>::new();
    let waker = Waker::new();
    assert!(matches!(
        offer(&mut pipe, Counted(Rc::clone(&drops)), &waker),
        Wait::Pending
    ));
    let (item, woken) = pipe.withdraw();
    drop(item);
    wake(woken);
    assert_eq!(drops.get(), 1);

    assert!(matches!(take(&mut pipe, &waker), Wait::Pending));
}

#[test]
fn producer_and_consumer_cancellation_wake_the_opposite_side() {
    let mut pipe = Pipe::<(), ()>::new();
    let waker = Waker::new();
    assert_eq!(pipe.demand(waker.clone()), Wait::Pending);
    pipe.producer_left();
    wake(pipe.abandon());
    assert_eq!(
        pipe.demand(waker.clone()),
        Wait::Ready(Err(DemandError::Abandoned))
    );

    let mut pipe = Pipe::<(), ()>::new();
    assert_eq!(take(&mut pipe, &waker), Wait::Pending);
    pipe.consumer_left();
    wake(pipe.disconnect());
    assert_eq!(take(&mut pipe, &waker), Wait::Ready(Err(TakeError::Disconnected)));
}

#[test]
fn changed_wakers_replace_old_registrations() {
    let mut pipe = Pipe::<usize, ()>::new();
    let old = Waker::new();
    let new = Waker::new();

    assert_eq!(take(&mut pipe, &old), Wait::Pending);
    assert_eq!(take(&mut pipe, &new), Wait::Pending);
    assert_eq!(offer(&mut pipe, 1, &new), Wait::Pending);

    assert_eq!(old.count(), 0);
    assert_eq!(new.count(), 1);
}

#[test]
fn abandoned_offer_errors_preserve_items() {
    let mut pipe = Pipe::<usize, ()>::new();
    wake(pipe.abandon());
    let waker = Waker::new();

    assert_eq!(
        offer(&mut pipe, 3, &waker),
        Wait::Ready(Err(OfferError::Abandoned(3)))
    );
}

#[test]
fn a_closed_pipe_returns_offers_and_refuses_demand() {
    let mut pipe = Pipe::<usize, ()>::new();
    let waker = Waker::new();
    wake(pipe.close());
    assert_eq!(pipe.demand(waker.clone()), Wait::Ready(Err(DemandError::Closed)));
    assert_eq!(offer(&mut pipe, 5, &waker), Wait::Ready(Err(OfferError::Closed(5))));
    // Only the first end counts.
    wake(pipe.fail(()));
    assert_eq!(take(&mut pipe, &waker), Wait::Ready(Ok(None)));
    assert!(pipe.consumed);
    wake(pipe.abandon());
    assert!(matches!(pipe.state, State::Closed));
    assert!(!pipe.is_abandoned());
}

#[test]
fn ends_are_reported_once() {
    let waker = Waker::new();
    let mut failed = Pipe::<usize, &'static str>::new();
    wake(failed.fail("broken"));
    assert_eq!(take(&mut failed, &waker), Wait::Ready(Err(TakeError::Failed("broken"))));
    assert_eq!(take(&mut failed, &waker), Wait::Ready(Ok(None)));

    let mut gone = Pipe::<usize, &'static str>::new();
    wake(gone.disconnect());
    assert_eq!(take(&mut gone, &waker), Wait::Ready(Err(TakeError::Disconnected)));
    assert_eq!(take(&mut gone, &waker), Wait::Ready(Ok(None)));
}

#[test]
fn abandonment_is_awaited_beside_other_work() {
    let mut pipe = Pipe::<usize, ()>::new();
    let waker = Waker::new();
    assert_eq!(pipe.abandoned(waker.clone()), Wait::Pending);
    wake(pipe.abandon());
    assert_eq!(waker.count(), 1);
    assert_eq!(pipe.abandoned(waker.clone()), Wait::Ready(()));
    assert!(pipe.is_abandoned());
}

#[test]
fn draining_charges_wire_and_payload_bytes() {
    let mut pipe = Pipe::<usize, ()>::new();
    assert!(pipe.charge_drain(usize::MAX, usize::MAX));
    pipe.drain_budget(10, 5);
    assert_eq!(pipe.drain_remaining, Some((15, 10)));
    assert!(pipe.charge_drain(9, 4));
    assert_eq!(pipe.drain_remaining, Some((6, 6)));
    assert!(!pipe.charge_drain(7, 1));
    assert!(!pipe.charge_drain(1, 7));
    assert_eq!(pipe.drain_remaining, Some((6, 6)));
    pipe.drain_budget(u64::MAX, 1);
    assert_eq!(pipe.drain_remaining, Some((u64::MAX, u64::MAX)));
}

#[test]
fn charges_are_taken_as_long_as_they_fit_together() {
    for (charges, fit) in [
        (vec![(5, 5), (6, 5), (4, 0)], true),
        (vec![(5, 5), (6, 5), (5, 0)], false),
        (vec![(5, 5), (6, 6), (1, 0)], false),
        (vec![(15, 10)], true),
        (vec![(0, 0); 20], true),
    ] {
        let mut pipe = Pipe::<usize, ()>::new();
        pipe.drain_budget(10, 5);
        assert_eq!(charges.iter().all(|(bytes, data)| pipe.charge_drain(*bytes, *data)), fit);
    }
}

#[test]
fn offered_items_are_conserved() {
    let waker = Waker::new();
    let mut pipe = Pipe::<usize, ()>::new();
    let mut handed = Vec::new();
    for item in 0..4 {
        assert_eq!(offer(&mut pipe, item, &waker), Wait::Pending);
        if item % 2 == 0 {
            let Wait::Ready(Ok(Some(taken))) = take(&mut pipe, &waker) else {
                panic!("missing item")
            };
            handed.push(taken);
            assert_eq!(pipe.offered(waker.clone()), Wait::Ready(Ok(())));
        } else {
            let (returned, _) = pipe.withdraw();
            handed.push(returned.unwrap());
        }
    }
    assert_eq!(handed, [0, 1, 2, 3]);
    assert!(matches!(pipe.state, State::Idle));
}
