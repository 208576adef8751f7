use guest::protocol::{Order, Reply, Request};
use guest::{Contract, OwnerView, WakerSlot};
use std::sync::atomic::{AtomicUsize, Ordering};
use std::sync::Arc;
use std::task::{Context, Wake, Waker};

struct Alarm(AtomicUsize);

impl Alarm {
    fn new() -> Arc<Alarm> {
        Arc::new(Alarm(AtomicUsize::new(0)))
    }

    fn rang(&self) -> usize {
        self.0.load(Ordering::SeqCst)
    }
}

impl Wake for Alarm {
    fn wake(self: Arc<Self>) {
        self.0.fetch_add(1, Ordering::SeqCst);
    }
}

fn counter<T>(contract: &mut Contract<T>) -> usize {
    match contract.access(Request::Load { order: Order::Relaxed }) {
        Reply::Value(n) => n,
        reply => panic!("a load gave {:?}", reply),
    }
}

#[test]
fn new_contract_is_free() {
    let mut contract = Contract::new(7u32);
    assert_eq!(counter(&mut contract), 0);
    assert!(matches!(contract.take_waker(), WakerSlot::Unset));
    assert_eq!(*contract.as_ref(), 7);
    assert_eq!(contract.take_val(), 7);
}

#[test]
fn increment_counts_from_zero_to_two_and_on() {
    let mut contract = Contract::new(());
    assert_eq!(contract.increment(), 0);
    assert_eq!(counter(&mut contract), 2);
    assert_eq!(contract.increment(), 2);
    assert_eq!(counter(&mut contract), 3);
    assert!(matches!(contract.take_waker(), WakerSlot::Noop(_)));
}

#[test]
fn increment_unchecked_adds_one_and_wraps() {
    let mut contract = Contract::new(());
    contract.init_visitor();
    assert_eq!(contract.increment_unchecked(), 2);
    assert_eq!(counter(&mut contract), 3);
    contract.access(Request::Store { value: usize::MAX, order: Order::Relaxed });
    assert_eq!(contract.increment_unchecked(), usize::MAX);
    assert_eq!(counter(&mut contract), 0);
}

#[test]
fn decrement_counts_down_and_skips_one() {
    let mut contract = Contract::new(());
    contract.init_visitor();
    contract.increment_unchecked();
    contract.increment_unchecked();
    assert_eq!(contract.decrement(), 4);
    assert_eq!(contract.decrement(), 3);
    assert_eq!(counter(&mut contract), 2);
    assert_eq!(contract.decrement(), 2);
    assert_eq!(counter(&mut contract), 0);
    assert!(matches!(contract.take_waker(), WakerSlot::Unset));
}

#[test]
fn set_waker_needs_a_borrow() {
    let alarm = Alarm::new();
    let mut contract = Contract::new(());
    assert_eq!(contract.set_waker(Waker::from(alarm.clone())), None);
    assert!(matches!(contract.take_waker(), WakerSlot::Unset));
    contract.init_visitor();
    assert_eq!(contract.set_waker(Waker::from(alarm.clone())), Some(()));
    assert_eq!(counter(&mut contract), 2);
    contract.decrement();
    assert_eq!(alarm.rang(), 1);
}

#[test]
fn try_set_waker_leaves_the_waker_of_the_context() {
    let alarm = Alarm::new();
    let waker = Waker::from(alarm.clone());
    let mut cx = Context::from_waker(&waker);
    let mut contract = Contract::new(());
    assert_eq!(contract.try_set_waker(&mut cx), None);
    contract.init_visitor();
    assert_eq!(contract.try_set_waker(&mut cx), Some(()));
    match contract.take_waker() {
        WakerSlot::Task(left) => assert!(left.will_wake(&waker)),
        _ => panic!("the slot does not hold the waker of a task"),
    }
    assert_eq!(alarm.rang(), 0);
}

#[test]
fn last_decrement_wakes_the_waker_left_last() {
    let first = Alarm::new();
    let second = Alarm::new();
    let mut contract = Contract::new(());
    contract.init_visitor();
    contract.increment_unchecked();
    contract.set_waker(Waker::from(first.clone()));
    contract.decrement();
    assert_eq!(first.rang(), 0);
    contract.set_waker(Waker::from(second.clone()));
    contract.decrement();
    assert_eq!(first.rang(), 0);
    assert_eq!(second.rang(), 1);
}

#[test]
fn init_visitor_starts_over() {
    let alarm = Alarm::new();
    let mut contract = Contract::new(());
    contract.init_visitor();
    contract.set_waker(Waker::from(alarm.clone()));
    contract.init_visitor();
    assert_eq!(counter(&mut contract), 2);
    contract.decrement();
    assert_eq!(alarm.rang(), 0);
}

#[test]
fn the_value_can_be_changed_in_place() {
    let mut contract = Contract::new(vec![1, 2]);
    OwnerView::from_raw(&mut contract).aquire_unchecked().as_mut().push(3);
    assert_eq!(*contract.as_ref(), vec![1, 2, 3]);
    assert_eq!(contract.take_val(), vec![1, 2, 3]);
}

#[test]
fn accesses_do_what_atomics_do() {
    let mut contract = Contract::new(());
    let exchange = Request::CompareExchange {
        current: 0,
        new: 5,
        success: Order::Acquire,
        failure: Order::Relaxed,
    };
    assert_eq!(contract.access(exchange), Reply::Exchanged(Ok(0)));
    assert_eq!(contract.access(exchange), Reply::Exchanged(Err(5)));
    let add = Request::FetchAdd { value: 2, order: Order::Relaxed };
    assert_eq!(contract.access(add), Reply::Value(5));
    assert_eq!(contract.access(Request::Store { value: 1, order: Order::Release }), Reply::Done);
    assert_eq!(counter(&mut contract), 1);
}

#[test]
fn waking_the_owner_empties_the_slot() {
    let alarm = Alarm::new();
    let mut contract = Contract::new(());
    contract.wake_owner();
    contract.write_noop();
    contract.wake_owner();
    assert_eq!(alarm.rang(), 0);
    contract.write_waker(Waker::from(alarm.clone()));
    contract.wake_owner();
    assert_eq!(alarm.rang(), 1);
    contract.wake_owner();
    assert_eq!(alarm.rang(), 1);
    assert!(matches!(contract.take_waker(), WakerSlot::Unset));
}

#[test]
fn nothing_but_the_last_decrement_wakes() {
    let alarm = Alarm::new();
    let waker = Waker::from(alarm.clone());
    let mut cx = Context::from_waker(&waker);
    let mut contract = Contract::new(0u8);
    contract.init_visitor();
    contract.set_waker(waker.clone());
    contract.increment();
    contract.increment_unchecked();
    contract.try_set_waker(&mut cx);
    contract.decrement();
    contract.decrement();
    assert_eq!(alarm.rang(), 0);
    contract.decrement();
    assert_eq!(alarm.rang(), 1);
    assert_eq!(contract.set_waker(waker.clone()), None);
    contract.init_visitor();
    contract.decrement();
    assert_eq!(alarm.rang(), 1);
}

#[test]
fn set_waker_drops_what_it_replaces() {
    let alarm = Alarm::new();
    let mut contract = Contract::new(());
    contract.init_visitor();
    contract.set_waker(Waker::from(alarm.clone()));
    assert_eq!(Arc::strong_count(&alarm), 2);
    contract.set_waker(Waker::from(alarm.clone()));
    assert_eq!(Arc::strong_count(&alarm), 2);
    assert_eq!(alarm.rang(), 0);
    contract.decrement();
    assert_eq!(Arc::strong_count(&alarm), 1);
    assert_eq!(alarm.rang(), 1);
}

#[test]
fn init_visitor_forgets_what_is_in_the_slot() {
    let alarm = Alarm::new();
    let mut contract = Contract::new(());
    contract.init_visitor();
    contract.set_waker(Waker::from(alarm.clone()));
    assert_eq!(Arc::strong_count(&alarm), 2);
    contract.init_visitor();
    assert_eq!(counter(&mut contract), 2);
    contract.decrement();
    // Neither dropped nor woken.
    assert_eq!(Arc::strong_count(&alarm), 2);
    assert_eq!(alarm.rang(), 0);
}

#[test]
fn write_noop_forgets_what_is_in_the_slot() {
    let alarm = Alarm::new();
    let mut contract = Contract::new(());
    contract.write_waker(Waker::from(alarm.clone()));
    contract.write_noop();
    assert!(matches!(contract.take_waker(), WakerSlot::Noop(_)));
    assert_eq!(Arc::strong_count(&alarm), 2);
    assert_eq!(alarm.rang(), 0);
}

#[test]
fn a_dropped_contract_drops_neither_value_nor_waker() {
    let alarm = Alarm::new();
    let val = Arc::new(());
    let mut contract = Contract::new(val.clone());
    contract.init_visitor();
    contract.set_waker(Waker::from(alarm.clone()));
    drop(contract);
    assert_eq!(Arc::strong_count(&val), 2);
    assert_eq!(Arc::strong_count(&alarm), 2);
    assert_eq!(Arc::strong_count(&Contract::new(val.clone()).take_val()), 3);
}
