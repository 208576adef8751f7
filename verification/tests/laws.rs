use futures::channel::oneshot;
use futures::future::LocalBoxFuture;
use guest::protocol::{Decrement, Increment, Order, Reply, Request, SetWaker};
use guest::{Anchor, Contract, OwnerView, Pool, WakerSlot};
use std::future::Future;
use std::sync::atomic::{AtomicUsize, Ordering};
use std::sync::Arc;
use std::task::{Context, Poll, Wake, Waker};

struct Alarm(AtomicUsize);

impl Alarm {
    fn new() -> Arc<Alarm> {
        Arc::new(Alarm(AtomicUsize::new(0)))
    }

    fn rang(&self) -> usize {
        self.0.load(Ordering::SeqCst)
    }
}

impl Wake for Alarm {
    fn wake(self: Arc<Self>) {
        self.0.fetch_add(1, Ordering::SeqCst);
    }
}

fn counter<T>(contract: &mut Contract<T>) -> usize {
    match contract.access(Request::Load { order: Order::Relaxed }) {
        Reply::Value(n) => n,
        reply => panic!("a load gave {:?}", reply),
    }
}

fn poll_next<F: Future>(pool: &mut Pool<F>, cx: &mut Context<'_>) -> Poll<Option<F::Output>> {
    match pool.poll_within(cx, usize::MAX) {
        Some(polled) => polled,
        None => panic!("the limit came first"),
    }
}

#[test]
fn counter_counts_the_borrows() {
    let mut contract = Contract::new(0u8);
    contract.init_visitor();
    for n in 2..6usize {
        assert_eq!(counter(&mut contract), n);
        contract.increment_unchecked();
    }
    assert_eq!(counter(&mut contract), 6);
    contract.decrement();
    contract.increment();
    contract.decrement();
    assert_eq!(counter(&mut contract), 5);
}

#[test]
fn memory_is_handed_on() {
    let alarm = Alarm::new();
    let mut contract = Contract::new(1u8);
    let mut unique = OwnerView::from_raw(&mut contract).aquire_unchecked();
    *unique.as_mut() = 2;
    let (mut owner, mut visitor) = unique.share();
    *visitor.as_mut(owner.contract) += 1;
    let other = visitor.clone(owner.contract);
    assert_eq!(owner.poll_with(Waker::from(alarm.clone())), Poll::Pending);
    other.drop(owner.contract);
    *visitor.as_mut(owner.contract) += 1;
    assert_eq!(owner.poll_with(Waker::from(alarm.clone())), Poll::Pending);
    visitor.drop(owner.contract);
    assert_eq!(owner.poll_with(Waker::from(alarm.clone())), Poll::Ready(()));
    assert_eq!(alarm.rang(), 1);
    assert_eq!(contract.take_val(), 4);
}

#[test]
fn writers_are_alone() {
    let mut contract = Contract::new(0u8);
    let (mut owner, mut visitor) = OwnerView::from_raw(&mut contract).aquire_unchecked().share();
    let visitors = |owner: &mut OwnerView<'_, u8>| counter(owner.contract) - 1;
    assert_eq!(visitors(&mut owner), 1);
    *visitor.as_mut(owner.contract) = 5;
    let other = visitor.clone(owner.contract);
    assert_eq!(visitors(&mut owner), 2);
    assert_eq!(*other.as_ref(owner.contract), 5);
    let owner = match owner.aquire(Waker::from(Alarm::new())) {
        Ok(_) => panic!("there are visitors"),
        Err(owner) => owner,
    };
    visitor.drop(owner.contract);
    other.drop(owner.contract);
    let mut unique = match owner.aquire(Waker::from(Alarm::new())) {
        Ok(unique) => unique,
        Err(_) => panic!("there is no visitor"),
    };
    *unique.as_mut() += 1;
    assert_eq!(counter(unique.contract), 0);
    assert_eq!(*unique.as_ref(), 6);
}

#[test]
fn owners_waker_stays_until_taken() {
    let alarm = Alarm::new();
    let mut contract = Contract::new(0u8);
    contract.init_visitor();
    contract.set_waker(Waker::from(alarm.clone()));
    // Borrows that come and go leave it where it is.
    contract.increment();
    contract.increment_unchecked();
    contract.decrement();
    contract.decrement();
    match contract.take_waker() {
        WakerSlot::Task(left) => assert!(left.will_wake(&Waker::from(alarm.clone()))),
        _ => panic!("the slot does not hold the waker of the owner"),
    }
    assert_eq!(alarm.rang(), 0);
}

#[test]
fn drop_undoes_clone_and_lending() {
    let alarm = Alarm::new();
    let mut contract = Contract::new(0u8);
    contract.init_visitor();
    contract.set_waker(Waker::from(alarm.clone()));
    contract.increment();
    contract.decrement();
    assert_eq!(counter(&mut contract), 2);
    assert_eq!(alarm.rang(), 0);
    contract.decrement();
    assert_eq!(counter(&mut contract), 0);
    assert_eq!(alarm.rang(), 1);
    assert!(matches!(contract.take_waker(), WakerSlot::Unset));
}

#[test]
fn sole_visitor_is_found_and_stays_sole() {
    let check = Request::CompareExchange {
        current: 2,
        new: 2,
        success: Order::Acquire,
        failure: Order::Relaxed,
    };
    let mut contract = Contract::new(0u8);
    contract.init_visitor();
    assert_eq!(contract.access(check), Reply::Exchanged(Ok(2)));
    contract.set_waker(Waker::from(Alarm::new()));
    assert_eq!(contract.access(check), Reply::Exchanged(Ok(2)));
    contract.increment_unchecked();
    assert_eq!(contract.access(check), Reply::Exchanged(Err(3)));
    let mut owner = SetWaker::Load;
    contract.decrement();
    owner = owner.resume(contract.access(owner.request()));
    owner = owner.resume(contract.access(owner.request()));
    assert_eq!(owner, SetWaker::WriteWaker { seen: 2 });
    assert_eq!(contract.access(check), Reply::Exchanged(Err(3)));
}

#[test]
fn clone_and_drop_under_the_guard_make_up_for_each_other() {
    let alarm = Alarm::new();
    let mut contract = Contract::new(0u8);
    contract.init_visitor();
    let mut owner = SetWaker::Load;
    owner = owner.resume(contract.access(owner.request()));
    owner = owner.resume(contract.access(owner.request()));
    assert_eq!(contract.increment_unchecked(), 3);
    assert_eq!(contract.decrement(), 4);
    contract.write_waker(Waker::from(alarm.clone()));
    owner = owner.resume(Reply::Done);
    owner = owner.resume(contract.access(owner.request()));
    owner = owner.resume(contract.access(owner.request()));
    assert_eq!(owner, SetWaker::Done { set: true });
    assert_eq!(counter(&mut contract), 2);
    assert_eq!(contract.decrement(), 2);
    assert_eq!(counter(&mut contract), 0);
    assert_eq!(alarm.rang(), 1);
}

#[test]
fn concurrent_drops_count_down() {
    let alarm = Alarm::new();
    let mut contract = Contract::new(0u8);
    contract.init_visitor();
    for _ in 0..4 {
        contract.increment_unchecked();
    }
    contract.set_waker(Waker::from(alarm.clone()));
    let mut visitors = vec![Decrement::Load; 5];
    let mut takers = Vec::new();
    let mut returned = Vec::new();
    // The visitors take turns, one access each.
    while returned.len() < 5 {
        for (name, at) in visitors.iter_mut().enumerate() {
            if matches!(at, Decrement::Done { .. }) {
                continue;
            }
            let reply = match at.request() {
                Request::TakeWaker => {
                    takers.push(name);
                    contract.wake_owner();
                    Reply::Done
                }
                request => contract.access(request),
            };
            *at = at.resume(reply);
            if let Decrement::Done { previous } = *at {
                returned.push((name, previous));
            }
        }
    }
    let counts: Vec<usize> = returned.iter().map(|(_, previous)| *previous).collect();
    assert_eq!(counts, vec![6, 5, 4, 3, 2]);
    assert_eq!(takers, vec![returned[4].0]);
    assert_eq!(alarm.rang(), 1);
    assert_eq!(counter(&mut contract), 0);
    assert!(matches!(contract.take_waker(), WakerSlot::Unset));
}

#[test]
fn concurrent_newcomers_count_up() {
    let mut contract = Contract::new(0u8);
    let mut newcomers = vec![Increment::Load; 5];
    let mut fillers = Vec::new();
    let mut entered = Vec::new();
    // The newcomers take turns, one access each.
    while entered.len() < 5 {
        for (name, at) in newcomers.iter_mut().enumerate() {
            if matches!(at, Increment::Done { .. }) {
                continue;
            }
            let reply = match at.request() {
                Request::WriteNoop => {
                    fillers.push(name);
                    contract.write_noop();
                    Reply::Done
                }
                request => contract.access(request),
            };
            *at = at.resume(reply);
            if let Increment::Done { previous } = *at {
                entered.push((name, previous));
            }
        }
    }
    let counts: Vec<usize> = entered.iter().map(|(_, previous)| *previous).collect();
    assert_eq!(counts, vec![0, 2, 3, 4, 5]);
    assert_eq!(fillers, vec![entered[0].0]);
    assert_eq!(counter(&mut contract), 6);
    assert!(matches!(contract.take_waker(), WakerSlot::Noop(_)));
}

#[test]
fn an_added_borrow_and_a_drop_fall_between_each_other() {
    let mut contract = Contract::new(0u8);
    contract.init_visitor();
    contract.increment_unchecked();
    let mut adding = Increment::Load;
    let mut dropping = Decrement::Load;
    adding = adding.resume(contract.access(adding.request()));
    dropping = dropping.resume(contract.access(dropping.request()));
    dropping = dropping.resume(contract.access(dropping.request()));
    assert_eq!(dropping, Decrement::Done { previous: 3 });
    adding = adding.resume(contract.access(adding.request()));
    assert_eq!(adding, Increment::Load);
    adding = adding.resume(contract.access(adding.request()));
    adding = adding.resume(contract.access(adding.request()));
    assert_eq!(adding, Increment::Done { previous: 2 });
    assert_eq!(counter(&mut contract), 3);
}

#[test]
fn pending_poll_is_woken_by_the_channel_and_by_the_tasks() {
    let alarm = Alarm::new();
    let waker = Waker::from(alarm.clone());
    let mut cx = Context::from_waker(&waker);
    let anchor = Anchor::<LocalBoxFuture<'_, u8>>::new();
    let mut spawner = anchor.spawner.clone();
    let mut pool = anchor.stream();
    assert_eq!(poll_next(&mut pool, &mut cx), Poll::Pending);
    assert_eq!(alarm.rang(), 0);
    let (sender, receiver) = oneshot::channel::<u8>();
    spawner.spawn(Box::pin(async move { receiver.await.unwrap_or(0) })).unwrap();
    assert!(alarm.rang() > 0);
    assert_eq!(poll_next(&mut pool, &mut cx), Poll::Pending);
    assert_eq!(poll_next(&mut pool, &mut cx), Poll::Pending);
    let before = alarm.rang();
    sender.send(6).unwrap();
    assert!(alarm.rang() > before);
    assert_eq!(poll_next(&mut pool, &mut cx), Poll::Ready(Some(6)));
    assert_eq!(poll_next(&mut pool, &mut cx), Poll::Pending);
    let before = alarm.rang();
    drop(spawner);
    assert!(alarm.rang() > before);
    assert_eq!(poll_next(&mut pool, &mut cx), Poll::Ready(None));
    assert!(pool.is_terminated());
}

#[test]
fn no_task_is_lost() {
    let waker = Waker::from(Alarm::new());
    let mut cx = Context::from_waker(&waker);
    let mut anchor = Anchor::<LocalBoxFuture<'_, usize>>::new();
    for n in 0..100usize {
        anchor.spawn(Box::pin(async move { n })).unwrap();
    }
    let mut pool = anchor.stream();
    let mut seen = vec![false; 100];
    while let Poll::Ready(Some(n)) = poll_next(&mut pool, &mut cx) {
        assert!(!seen[n]);
        seen[n] = true;
    }
    assert!(seen.iter().all(|found| *found));
    assert!(pool.is_terminated());
}

#[test]
fn every_task_gives_one_output() {
    let waker = Waker::from(Alarm::new());
    let mut cx = Context::from_waker(&waker);
    let mut anchor = Anchor::<LocalBoxFuture<'_, usize>>::new();
    let mut spawner = anchor.spawner.clone();
    let (sender, receiver) = oneshot::channel::<usize>();
    anchor.spawn(Box::pin(async move { receiver.await.unwrap_or(0) })).unwrap();
    spawner.spawn(Box::pin(async { 1 })).unwrap();
    let mut pool = anchor.stream();
    assert_eq!(poll_next(&mut pool, &mut cx), Poll::Ready(Some(1)));
    assert_eq!(poll_next(&mut pool, &mut cx), Poll::Pending);
    spawner.spawn(Box::pin(async { 1 })).unwrap();
    drop(spawner);
    assert_eq!(poll_next(&mut pool, &mut cx), Poll::Ready(Some(1)));
    assert_eq!(poll_next(&mut pool, &mut cx), Poll::Pending);
    sender.send(2).unwrap();
    assert_eq!(poll_next(&mut pool, &mut cx), Poll::Ready(Some(2)));
    assert_eq!(poll_next(&mut pool, &mut cx), Poll::Ready(None));
    assert_eq!(poll_next(&mut pool, &mut cx), Poll::Ready(None));
}

#[test]
fn pending_poll_is_woken_in_its_last_context() {
    let first = Alarm::new();
    let second = Alarm::new();
    let first_waker = Waker::from(first.clone());
    let second_waker = Waker::from(second.clone());
    let anchor = Anchor::<LocalBoxFuture<'_, u8>>::new();
    let mut spawner = anchor.spawner.clone();
    let mut pool = anchor.stream();
    assert_eq!(poll_next(&mut pool, &mut Context::from_waker(&first_waker)), Poll::Pending);
    assert_eq!(poll_next(&mut pool, &mut Context::from_waker(&second_waker)), Poll::Pending);
    spawner.spawn(Box::pin(async { 3 })).unwrap();
    assert_eq!(first.rang(), 0);
    assert_eq!(second.rang(), 1);
}
