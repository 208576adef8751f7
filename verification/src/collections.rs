//! Containers of memory that can be lent out.
use crate::borrow::{Borrow, Share};
use crate::contract::{Contract, ContractView};
use crate::kept::kept_mut;
use crate::reference::{Ref, RefMut};
use crate::views::OwnerView;
use std::mem::ManuallyDrop;
use std::task::{Context, Poll, Waker};
use vstd::prelude::*;

verus! {

/// Contains sharable memory.
///
/// **Will leak memory if not awaited:** a box that is dropped before its value was handed on
/// drops neither the value nor the memory that it is in.
#[must_use]
pub struct ShareBox<T> {
    /// The memory, until it is handed on.
    contract: Option<ManuallyDrop<Box<Contract<T>>>>,
}

impl<T> View for ShareBox<T> {
    type V = Option<ContractView<T>>;

    closed spec fn view(&self) -> Option<ContractView<T>> {
        match self.contract {
            Some(contract) => Some((*contract@)@),
            None => None,
        }
    }
}

impl<T> ShareBox<T> {
    /// A box around a value that nobody has borrowed.
    pub fn new(val: T) -> (owner: Self)
        ensures
            owner@ matches Some(contract) && {
                &&& contract.counter == 0
                &&& contract.waker is Unset
                &&& contract.val == val
                &&& contract.woken == Seq::<Waker>::empty()
                &&& contract.forgotten == Seq::<Waker>::empty()
            },
    {
        ShareBox { contract: Some(ManuallyDrop::new(Box::new(Contract::new(val)))) }
    }

    /// A box around a value that is handed to `f` before anyone else can borrow it.
    pub fn new_with<R>(val: T, f: impl for<'owner> FnOnce(Borrow<'owner, T>) -> R) -> (made: (
        Self,
        R,
    ))
        requires
            forall|borrow: Borrow<'_, T>|
                {
                    &&& borrow@.counter == 0
                    &&& borrow@.waker is Unset
                    &&& borrow@.val == val
                    &&& borrow@.woken == Seq::<Waker>::empty()
                    &&& borrow@.forgotten == Seq::<Waker>::empty()
                } ==> f.requires((borrow,)),
        ensures
            exists|borrow: Borrow<'_, T>|
                {
                    &&& borrow@.counter == 0
                    &&& borrow@.waker is Unset
                    &&& borrow@.val == val
                    &&& borrow@.woken == Seq::<Waker>::empty()
                    &&& borrow@.forgotten == Seq::<Waker>::empty()
                    &&& f.ensures((borrow,), made.1)
                    &&& made.0@ == Some(final(borrow.unique.contract)@)
                },
    {
        let mut owner = Self::new(val);
        let guard = owner.share().aquire_unchecked();
        let res = f(guard);
        (owner, res)
    }

    /// A box together with a reference to its value.
    pub fn new_with_ref(val: T) -> (made: (Self, Ref<T>))
        ensures
            made.0@ matches Some(contract) && {
                &&& contract.counter == 2
                &&& contract.waker.is_noop()
                &&& contract.val == val
                &&& contract.woken == Seq::<Waker>::empty()
                &&& contract.forgotten == Seq::<Waker>::empty()
                &&& contract.id == made.1.visitor.contract()
            },
    {
        let lend = |borrow: Borrow<'_, T>| -> (reference: Ref<T>)
            requires
                borrow@.counter == 0,
            ensures
                final(borrow.unique.contract)@.is_loan_of(borrow@),
                reference.visitor.contract() == borrow@.id,
            { borrow.as_ref() };
        Self::new_with(val, lend)
    }

    /// A box together with a mutable reference to its value.
    pub fn new_with_mut(val: T) -> (made: (Self, RefMut<T>))
        ensures
            made.0@ matches Some(contract) && {
                &&& contract.counter == 2
                &&& contract.waker.is_noop()
                &&& contract.val == val
                &&& contract.woken == Seq::<Waker>::empty()
                &&& contract.forgotten == Seq::<Waker>::empty()
                &&& contract.id == made.1.visitor.contract()
            },
    {
        let lend = |borrow: Borrow<'_, T>| -> (reference: RefMut<T>)
            requires
                borrow@.counter == 0,
            ensures
                final(borrow.unique.contract)@.is_loan_of(borrow@),
                reference.visitor.contract() == borrow@.id,
            { borrow.as_mut() };
        Self::new_with(val, lend)
    }

    /// The owner's side of the memory.
    pub fn share<'owner>(&'owner mut self) -> (share: Share<'owner, T>)
        requires
            old(self)@ is Some,
        ensures
            old(self)@ == Some(share@),
            final(self)@ == Some(final(share.owner.contract)@),
    {
        Share { owner: OwnerView::from_raw(self.memory()) }
    }

    /// The memory, for those who visit it.
    pub fn memory(&mut self) -> (contract: &mut Contract<T>)
        requires
            old(self)@ is Some,
        ensures
            old(self)@ == Some(contract@),
            final(self)@ == Some(final(contract)@),
    {
        &mut **kept_mut(self.contract.as_mut().unwrap())
    }

    /// Asks for the value: it is moved out where no borrow is left; otherwise `waker` is left to
    /// be woken when the last one ends.
    pub fn poll_with(&mut self, waker: Waker) -> (polled: Poll<T>)
        requires
            old(self)@ matches Some(contract) && {
                &&& contract.wf()
                &&& contract.counter != 1
                &&& contract.counter < usize::MAX
            },
        ensures
            match polled {
                Poll::Ready(val) => {
                    &&& old(self)@->0.counter == 0
                    &&& old(self)@->0.val == val
                    &&& final(self)@ is None
                },
                Poll::Pending => {
                    &&& old(self)@->0.counter != 0
                    &&& final(self)@ == Some(old(self)@->0.awaited(waker))
                },
            },
    {
        let polled = OwnerView::from_raw(self.memory()).poll_with(waker);
        match polled {
            Poll::Ready(()) => Poll::Ready(self.hand_on()),
            Poll::Pending => Poll::Pending,
        }
    }

    /// Asks for the value: it is moved out where no borrow is left; otherwise the polling task
    /// is woken when the last one ends.
    pub fn poll(&mut self, cx: &mut Context<'_>) -> (polled: Poll<T>)
        requires
            old(self)@ matches Some(contract) && {
                &&& contract.wf()
                &&& contract.counter != 1
                &&& contract.counter < usize::MAX
            },
        ensures
            match polled {
                Poll::Ready(val) => {
                    &&& old(self)@->0.counter == 0
                    &&& old(self)@->0.val == val
                    &&& final(self)@ is None
                },
                Poll::Pending => {
                    &&& old(self)@->0.counter != 0
                    &&& exists|waker: Waker| #[trigger]
                        crate::wakers::waker_of(*old(cx), waker) && final(self)@ == Some(
                            old(self)@->0.awaited(waker),
                        )
                },
            },
    {
        let polled = OwnerView::from_raw(self.memory()).poll(cx);
        match polled {
            Poll::Ready(()) => Poll::Ready(self.hand_on()),
            Poll::Pending => Poll::Pending,
        }
    }

    /// Moves the value out and frees the memory.
    fn hand_on(&mut self) -> (val: T)
        requires
            old(self)@ is Some,
        ensures
            val == old(self)@->0.val,
            final(self)@ is None,
    {
        let contract = ManuallyDrop::into_inner(self.contract.take().unwrap());
        contract.take_val()
    }

    /// Whether the value was handed on.
    pub fn is_terminated(&self) -> (terminated: bool)
        ensures
            terminated == (self@ is None),
    {
        self.contract.is_none()
    }
}

} // verus!
