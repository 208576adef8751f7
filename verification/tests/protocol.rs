use guest::atomic::access_atomic;
use guest::protocol::{Decrement, Increment, Order, Reply, Request, SetWaker};
use guest::{Contract, WakerSlot};
use std::sync::atomic::{AtomicUsize, Ordering};
use std::sync::Arc;
use std::task::{Wake, Waker};

fn counter(contract: &mut Contract<u8>) -> usize {
    match contract.access(Request::Load { order: Order::Relaxed }) {
        Reply::Value(n) => n,
        reply => panic!("a load gave {:?}", reply),
    }
}

fn step_decrement(contract: &mut Contract<u8>, at: Decrement) -> Decrement {
    let reply = match at.request() {
        Request::TakeWaker => {
            contract.wake_owner();
            Reply::Done
        }
        request => contract.access(request),
    };
    at.resume(reply)
}

struct Alarm(AtomicUsize);

impl Wake for Alarm {
    fn wake(self: Arc<Self>) {
        self.0.fetch_add(1, Ordering::SeqCst);
    }
}

fn step_set_waker(contract: &mut Contract<u8>, at: SetWaker, alarm: &Arc<Alarm>) -> SetWaker {
    let reply = match at.request() {
        Request::WriteWaker => {
            contract.write_waker(Waker::from(alarm.clone()));
            Reply::Done
        }
        Request::TakeWaker => {
            contract.wake_owner();
            Reply::Done
        }
        request => contract.access(request),
    };
    at.resume(reply)
}

#[test]
fn first_increment_passes_through_one() {
    let at = Increment::Load;
    assert_eq!(at.request(), Request::Load { order: Order::Relaxed });
    let at = at.resume(Reply::Value(0));
    assert_eq!(
        at.request(),
        Request::CompareExchange {
            current: 0,
            new: 1,
            success: Order::Acquire,
            failure: Order::Relaxed
        }
    );
    let at = at.resume(Reply::Exchanged(Ok(0)));
    assert_eq!(at.request(), Request::WriteNoop);
    let at = at.resume(Reply::Done);
    assert_eq!(at.request(), Request::Store { value: 2, order: Order::Release });
    assert_eq!(at.resume(Reply::Done), Increment::Done { previous: 0 });
}

#[test]
fn later_increment_is_one_exchange() {
    let at = Increment::Load.resume(Reply::Value(6));
    assert_eq!(
        at.request(),
        Request::CompareExchange {
            current: 6,
            new: 7,
            success: Order::Relaxed,
            failure: Order::Relaxed
        }
    );
    assert_eq!(at.resume(Reply::Exchanged(Ok(6))), Increment::Done { previous: 6 });
}

#[test]
fn last_decrement_passes_through_one() {
    let at = Decrement::Load.resume(Reply::Value(2));
    assert_eq!(
        at.request(),
        Request::CompareExchange {
            current: 2,
            new: 1,
            success: Order::Acquire,
            failure: Order::Relaxed
        }
    );
    let at = at.resume(Reply::Exchanged(Ok(2)));
    assert_eq!(at.request(), Request::TakeWaker);
    let at = at.resume(Reply::Done);
    assert_eq!(at.request(), Request::Store { value: 0, order: Order::Release });
    assert_eq!(at.resume(Reply::Done), Decrement::Done { previous: 2 });
}

#[test]
fn earlier_decrement_is_one_exchange() {
    let at = Decrement::Load.resume(Reply::Value(3));
    assert_eq!(
        at.request(),
        Request::CompareExchange {
            current: 3,
            new: 2,
            success: Order::Release,
            failure: Order::Relaxed
        }
    );
    assert_eq!(at.resume(Reply::Exchanged(Ok(3))), Decrement::Done { previous: 3 });
}

#[test]
fn set_waker_raises_the_counter_meanwhile() {
    let at = SetWaker::Load.resume(Reply::Value(2));
    assert_eq!(
        at.request(),
        Request::CompareExchange {
            current: 2,
            new: 3,
            success: Order::Acquire,
            failure: Order::Relaxed
        }
    );
    let at = at.resume(Reply::Exchanged(Ok(2)));
    assert_eq!(at.request(), Request::WriteWaker);
    let at = at.resume(Reply::Done);
    assert_eq!(at.request(), Request::Load { order: Order::Relaxed });
    let at = at.resume(Reply::Value(3));
    assert_eq!(
        at.request(),
        Request::CompareExchange {
            current: 3,
            new: 2,
            success: Order::Release,
            failure: Order::Relaxed
        }
    );
    assert_eq!(at.resume(Reply::Exchanged(Ok(3))), SetWaker::Done { set: true });
}

#[test]
fn set_waker_leaves_like_a_visitor() {
    assert_eq!(
        SetWaker::Release(Decrement::Exchange { seen: 5 }).resume(Reply::Exchanged(Err(4))),
        SetWaker::Release(Decrement::Load)
    );
    assert_eq!(
        SetWaker::Release(Decrement::Load).resume(Reply::Value(1)),
        SetWaker::Release(Decrement::Load)
    );
    let at = SetWaker::Release(Decrement::Load).resume(Reply::Value(2));
    assert_eq!(
        at.request(),
        Request::CompareExchange {
            current: 2,
            new: 1,
            success: Order::Acquire,
            failure: Order::Relaxed
        }
    );
    let at = at.resume(Reply::Exchanged(Ok(2)));
    assert_eq!(at.request(), Request::TakeWaker);
    let at = at.resume(Reply::Done);
    assert_eq!(at.request(), Request::Store { value: 0, order: Order::Release });
    assert_eq!(at.resume(Reply::Done), SetWaker::Done { set: true });
}

#[test]
fn set_waker_finds_no_borrow() {
    assert_eq!(SetWaker::Load.resume(Reply::Value(0)), SetWaker::Done { set: false });
}

#[test]
fn programs_start_over_at_one_and_after_a_failed_exchange() {
    assert_eq!(Increment::Load.resume(Reply::Value(1)), Increment::Load);
    assert_eq!(Decrement::Load.resume(Reply::Value(1)), Decrement::Load);
    assert_eq!(SetWaker::Load.resume(Reply::Value(1)), SetWaker::Load);
    let failed = Reply::Exchanged(Err(5));
    assert_eq!(Increment::Exchange { seen: 4 }.resume(failed), Increment::Load);
    assert_eq!(Decrement::Exchange { seen: 4 }.resume(failed), Decrement::Load);
    assert_eq!(SetWaker::Exchange { seen: 4 }.resume(failed), SetWaker::Load);
}

#[test]
fn two_visitors_leave_at_the_same_time() {
    let mut contract = Contract::new(0u8);
    contract.init_visitor();
    contract.increment_unchecked();
    let mut one = step_decrement(&mut contract, Decrement::Load);
    let mut other = step_decrement(&mut contract, Decrement::Load);
    assert_eq!(one, Decrement::Exchange { seen: 3 });
    assert_eq!(other, Decrement::Exchange { seen: 3 });
    one = step_decrement(&mut contract, one);
    assert_eq!(one, Decrement::Done { previous: 3 });
    other = step_decrement(&mut contract, other);
    assert_eq!(other, Decrement::Load);
    for _ in 0..4 {
        assert!(!matches!(other, Decrement::Done { .. }));
        other = step_decrement(&mut contract, other);
    }
    assert_eq!(other, Decrement::Done { previous: 2 });
    assert_eq!(counter(&mut contract), 0);
    assert!(matches!(contract.take_waker(), WakerSlot::Unset));
}

#[test]
fn an_owner_waits_out_the_visitor_that_leaves() {
    let mut contract = Contract::new(0u8);
    contract.init_visitor();
    let mut visitor = step_decrement(&mut contract, Decrement::Load);
    visitor = step_decrement(&mut contract, visitor);
    assert_eq!(visitor, Decrement::TakeWaker);
    let mut owner = SetWaker::Load;
    for _ in 0..3 {
        owner = owner.resume(contract.access(owner.request()));
        assert_eq!(owner, SetWaker::Load);
    }
    visitor = step_decrement(&mut contract, visitor);
    visitor = step_decrement(&mut contract, visitor);
    assert_eq!(visitor, Decrement::Done { previous: 2 });
    owner = owner.resume(contract.access(owner.request()));
    assert_eq!(owner, SetWaker::Done { set: false });
}

#[test]
fn a_drop_under_the_guard_counts() {
    let alarm = Arc::new(Alarm(AtomicUsize::new(0)));
    let mut contract = Contract::new(0u8);
    contract.init_visitor();
    let mut owner = SetWaker::Load;
    owner = step_set_waker(&mut contract, owner, &alarm);
    owner = step_set_waker(&mut contract, owner, &alarm);
    assert_eq!(owner, SetWaker::WriteWaker { seen: 2 });
    assert_eq!(contract.decrement(), 3);
    assert_eq!(counter(&mut contract), 2);
    owner = step_set_waker(&mut contract, owner, &alarm);
    owner = step_set_waker(&mut contract, owner, &alarm);
    owner = step_set_waker(&mut contract, owner, &alarm);
    assert_eq!(owner, SetWaker::Release(Decrement::TakeWaker));
    assert_eq!(counter(&mut contract), 1);
    assert_eq!(alarm.0.load(Ordering::SeqCst), 0);
    owner = step_set_waker(&mut contract, owner, &alarm);
    assert_eq!(alarm.0.load(Ordering::SeqCst), 1);
    owner = step_set_waker(&mut contract, owner, &alarm);
    assert_eq!(owner, SetWaker::Done { set: true });
    assert_eq!(counter(&mut contract), 0);
    assert!(matches!(contract.take_waker(), WakerSlot::Unset));
}

#[test]
fn a_clone_under_the_guard_counts() {
    let alarm = Arc::new(Alarm(AtomicUsize::new(0)));
    let mut contract = Contract::new(0u8);
    contract.init_visitor();
    let mut owner = SetWaker::Load;
    for _ in 0..3 {
        owner = step_set_waker(&mut contract, owner, &alarm);
    }
    assert_eq!(owner, SetWaker::Release(Decrement::Load));
    contract.increment_unchecked();
    owner = step_set_waker(&mut contract, owner, &alarm);
    owner = step_set_waker(&mut contract, owner, &alarm);
    assert_eq!(owner, SetWaker::Done { set: true });
    assert_eq!(counter(&mut contract), 3);
    assert_eq!(contract.decrement(), 3);
    assert_eq!(alarm.0.load(Ordering::SeqCst), 0);
    assert_eq!(contract.decrement(), 2);
    assert_eq!(alarm.0.load(Ordering::SeqCst), 1);
}

#[test]
fn accesses_reach_a_shared_counter() {
    let shared = AtomicUsize::new(2);
    let load = Request::Load { order: Order::Acquire };
    assert_eq!(access_atomic(&shared, load), Reply::Value(2));
    let raise = Request::CompareExchange {
        current: 2,
        new: 3,
        success: Order::Acquire,
        failure: Order::Relaxed,
    };
    assert_eq!(access_atomic(&shared, raise), Reply::Exchanged(Ok(2)));
    assert_eq!(access_atomic(&shared, raise), Reply::Exchanged(Err(3)));
    let add = Request::FetchAdd { value: 4, order: Order::Relaxed };
    assert_eq!(access_atomic(&shared, add), Reply::Value(3));
    let store = Request::Store { value: 9, order: Order::Release };
    assert_eq!(access_atomic(&shared, store), Reply::Done);
    assert_eq!(shared.load(Ordering::SeqCst), 9);
}
