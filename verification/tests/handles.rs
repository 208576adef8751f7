use futures::task::noop_waker;
use guest::collections::ShareBox;
use guest::{Borrow, Contract, OwnerView, Ref, RefMut, Share, UniqueView, UpgRef};
use std::sync::atomic::{AtomicUsize, Ordering};
use std::sync::Arc;
use std::task::{Context, Poll, Wake, Waker};

struct Alarm(AtomicUsize);

impl Wake for Alarm {
    fn wake(self: Arc<Self>) {
        self.0.fetch_add(1, Ordering::SeqCst);
    }
}

#[test]
fn owner_gets_free_memory_at_once() {
    let mut contract = Contract::new(1u8);
    let mut owner = OwnerView::from_raw(&mut contract);
    assert_eq!(owner.poll_with(noop_waker()), Poll::Ready(()));
    let mut unique = match owner.aquire(noop_waker()) {
        Ok(unique) => unique,
        Err(_) => panic!("nobody has borrowed the value"),
    };
    *unique.as_mut() += 1;
    assert_eq!(*unique.as_ref(), 2);
    let owner: OwnerView<'_, u8> = unique.as_owner();
    let unique: UniqueView<'_, u8> = owner.aquire_unchecked();
    assert_eq!(*unique.as_ref(), 2);
}

#[test]
fn owner_waits_for_its_visitor() {
    let alarm = Arc::new(Alarm(AtomicUsize::new(0)));
    let waker = Waker::from(alarm.clone());
    let mut cx = Context::from_waker(&waker);
    let mut contract = Contract::new(1u8);
    let unique = OwnerView::from_raw(&mut contract).aquire_unchecked();
    let (mut owner, visitor) = unique.share();
    assert_eq!(owner.poll(&mut cx), Poll::Pending);
    let other = visitor.clone(owner.contract);
    visitor.drop(owner.contract);
    assert_eq!(alarm.0.load(Ordering::SeqCst), 0);
    let owner = match owner.aquire(waker.clone()) {
        Ok(_) => panic!("there is a borrow left"),
        Err(owner) => owner,
    };
    other.drop(owner.contract);
    assert_eq!(alarm.0.load(Ordering::SeqCst), 1);
    assert!(owner.aquire(noop_waker()).is_ok());
}

#[test]
fn visitors_read_and_write() {
    let mut contract = Contract::new(String::from("a"));
    let (owner, mut visitor) = OwnerView::from_raw(&mut contract).aquire_unchecked().share();
    visitor.as_mut(owner.contract).push('b');
    assert_eq!(visitor.as_ref(owner.contract), "ab");
    visitor.drop(owner.contract);
    assert_eq!(contract.take_val(), "ab");
}

#[test]
fn borrow_lends_and_share_aquires() {
    let mut owner = ShareBox::new(10u32);
    let mut borrow = match owner.share().aquire(noop_waker()) {
        Ok(borrow) => borrow,
        Err(_) => panic!("nobody has borrowed the value"),
    };
    *borrow.deref_mut() += 1;
    assert_eq!(*borrow, 11);
    let (share, mut reference) = borrow.borrow_mut();
    *reference.deref_mut(share.owner.contract) *= 2;
    let share = match share.aquire(noop_waker()) {
        Ok(_) => panic!("there is a borrow left"),
        Err(share) => share,
    };
    reference.drop(share.owner.contract);
    let borrow = match share.aquire(noop_waker()) {
        Ok(borrow) => borrow,
        Err(_) => panic!("the borrow is over"),
    };
    let (share, reference) = borrow.borrow_ref();
    assert_eq!(*reference.deref(share.owner.contract), 22);
    reference.drop(share.owner.contract);
    let borrow: Borrow<'_, u32> = share.aquire_unchecked();
    let share = Share::from_unique(borrow);
    let share = Share::from(share.aquire_unchecked());
    assert!(share.aquire(noop_waker()).is_ok());
}

#[test]
fn upgrade_fails_if_other_references_exist() {
    let (mut owner, reference) = ShareBox::new_with_mut(1u8);
    let upgradable = reference.downgrade();
    let other = upgradable.clone(owner.memory());
    let upgradable = match upgradable.upgrade(owner.memory()) {
        Ok(_) => panic!("there is another reference"),
        Err(upgradable) => upgradable,
    };
    other.drop(owner.memory());
    let mut reference = match upgradable.upgrade(owner.memory()) {
        Ok(reference) => reference,
        Err(_) => panic!("there is no other reference"),
    };
    *reference.deref_mut(owner.memory()) = 5;
    assert_eq!(*reference.deref(owner.memory()), 5);
    reference.drop(owner.memory());
    assert_eq!(owner.poll_with(noop_waker()), Poll::Ready(5));
}

#[test]
fn upgrade_goes_by_the_exchange() {
    let (_, reference) = ShareBox::new_with_mut(1u8);
    let upgradable: UpgRef<u8> = reference.downgrade();
    let upgradable = match upgradable.upgrade_with(Err(3)) {
        Ok(_) => panic!("the exchange failed"),
        Err(upgradable) => upgradable,
    };
    assert!(upgradable.upgrade_with(Ok(2)).is_ok());
    assert!(UpgRef::<u8>::is_sole(Ok(2)));
    assert!(!UpgRef::<u8>::is_sole(Err(3)));
}

#[test]
fn references_convert() {
    let (mut owner, reference) = ShareBox::new_with_mut(4u64);
    let shared: Ref<u64> = Ref::from(reference);
    assert_eq!(*shared.deref(owner.memory()), 4);
    shared.drop(owner.memory());
    assert_eq!(owner.poll_with(noop_waker()), Poll::Ready(4));

    let (mut owner, reference) = ShareBox::new_with_mut(4u64);
    let upgradable = reference.downgrade();
    assert_eq!(*upgradable.deref(owner.memory()), 4);
    let other = upgradable.clone(owner.memory());
    let shared = Ref::from(upgradable);
    let last = other.as_ref();
    shared.drop(owner.memory());
    assert_eq!(owner.poll_with(noop_waker()), Poll::Pending);
    last.drop(owner.memory());
    assert_eq!(owner.poll_with(noop_waker()), Poll::Ready(4));

    let (mut owner, reference): (ShareBox<u64>, RefMut<u64>) = ShareBox::new_with_mut(4);
    let shared = reference.as_ref();
    shared.drop(owner.memory());
    assert_eq!(owner.poll_with(noop_waker()), Poll::Ready(4));
}

#[test]
fn upgradable_reference_drops() {
    let (mut owner, reference) = ShareBox::new_with_mut(4u64);
    reference.downgrade().drop(owner.memory());
    assert_eq!(owner.poll_with(noop_waker()), Poll::Ready(4));
}

#[test]
fn box_hands_its_value_on_once() {
    let mut owner = ShareBox::new(vec![1, 2, 3]);
    assert!(!owner.is_terminated());
    assert_eq!(owner.poll_with(noop_waker()), Poll::Ready(vec![1, 2, 3]));
    assert!(owner.is_terminated());
}

#[test]
fn box_polls_with_a_context() {
    let alarm = Arc::new(Alarm(AtomicUsize::new(0)));
    let waker = Waker::from(alarm.clone());
    let mut cx = Context::from_waker(&waker);
    let (mut owner, reference) = ShareBox::new_with_ref(3i32);
    assert_eq!(owner.poll(&mut cx), Poll::Pending);
    assert!(!owner.is_terminated());
    reference.drop(owner.memory());
    assert_eq!(alarm.0.load(Ordering::SeqCst), 1);
    assert_eq!(owner.poll(&mut cx), Poll::Ready(3));
    assert!(owner.is_terminated());
}

#[test]
fn box_lends_before_anyone_else() {
    let (mut owner, seen) = ShareBox::new_with(3i32, |mut borrow| {
        *borrow.deref_mut() += 1;
        *borrow
    });
    assert_eq!(seen, 4);
    assert_eq!(owner.poll_with(noop_waker()), Poll::Ready(4));
}

#[test]
fn unwatched_loans_are_waited_for_by_the_box() {
    let mut owner = ShareBox::new(1u8);
    let reference = owner.share().aquire_unchecked().as_ref();
    assert_eq!(owner.poll_with(noop_waker()), Poll::Pending);
    reference.drop(owner.memory());
    let mut reference = owner.share().aquire_unchecked().as_mut();
    *reference.deref_mut(owner.memory()) = 2;
    assert_eq!(owner.poll_with(noop_waker()), Poll::Pending);
    reference.drop(owner.memory());
    assert_eq!(owner.poll_with(noop_waker()), Poll::Ready(2));
}

#[test]
fn box_leaks_if_not_awaited() {
    let val = Arc::new(());
    drop(ShareBox::new(val.clone()));
    assert_eq!(Arc::strong_count(&val), 2);
    let mut owner = ShareBox::new(val.clone());
    match owner.poll_with(noop_waker()) {
        Poll::Ready(handed) => assert!(Arc::ptr_eq(&handed, &val)),
        Poll::Pending => panic!("nobody has borrowed the value"),
    }
    drop(owner);
    assert_eq!(Arc::strong_count(&val), 2);
}
