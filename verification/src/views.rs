//! The three perspectives on a contract: its waiting owner, its unique owner, its visitors.
use crate::contract::{Contract, ContractView};
use std::marker::PhantomData;
use std::task::{Context, Poll, Waker};
use vstd::prelude::*;

verus! {

/// A view to the memory that is being borrowed from the perspective of the owner.
///
/// Borrows the owner mutably.
pub struct OwnerView<'owner, T> {
    /// The memory of the owner.
    pub contract: &'owner mut Contract<T>,
}

impl<'owner, T> OwnerView<'owner, T> {
    /// The contract as the view finds it.
    pub open spec fn view(self) -> ContractView<T> {
        self.contract@
    }

    /// The owner's view of a contract.
    pub fn from_raw(contract: &'owner mut Contract<T>) -> (owner: Self)
        ensures
            owner@ == old(contract)@,
            *final(owner.contract) == *final(contract),
    {
        OwnerView { contract }
    }

    /// Asks for the value: `Ready` where no borrow is left; otherwise `waker` is left to be
    /// woken when the last one ends.
    pub fn poll_with(&mut self, waker: Waker) -> (polled: Poll<()>)
        requires
            old(self)@.wf(),
            old(self)@.counter != 1,
            old(self)@.counter < usize::MAX,
        ensures
            polled is Ready <==> old(self)@.counter == 0,
            final(self)@ == old(self)@.awaited(waker),
            final(self)@.wf(),
            *final(final(self).contract) == *final(old(self).contract),
    {
        match self.contract.set_waker(waker) {
            // The waker was set, so we are not done.
            Some(_) => Poll::Pending,
            // The waker was not set, so we are done.
            None => Poll::Ready(()),
        }
    }

    /// Asks for the value: `Ready` where no borrow is left; otherwise the polling task is woken
    /// when the last one ends.
    pub fn poll(&mut self, cx: &mut Context<'_>) -> (polled: Poll<()>)
        requires
            old(self)@.wf(),
            old(self)@.counter != 1,
            old(self)@.counter < usize::MAX,
        ensures
            polled is Ready <==> old(self)@.counter == 0,
            exists|waker: Waker| #[trigger]
                crate::wakers::waker_of(*old(cx), waker) && final(self)@ == old(self)@.awaited(
                    waker,
                ),
            final(self)@.wf(),
            *final(final(self).contract) == *final(old(self).contract),
            *final(cx) == *old(cx),
    {
        match self.contract.try_set_waker(cx) {
            // The waker was set, so we are not done.
            Some(_) => Poll::Pending,
            // The waker was not set, so we are done.
            None => Poll::Ready(()),
        }
    }

    /// One attempt to get the value back: the unique view where no borrow is left; otherwise
    /// the view itself, with `waker` left to be woken when it is time for another attempt.
    pub fn aquire(self, waker: Waker) -> (aquired: Result<UniqueView<'owner, T>, Self>)
        requires
            self@.wf(),
            self@.counter != 1,
            self@.counter < usize::MAX,
        ensures
            match aquired {
                Ok(unique) => {
                    &&& self@.counter == 0
                    &&& unique@ == self@
                    &&& *final(unique.contract) == *final(self.contract)
                },
                Err(owner) => {
                    &&& self@.counter != 0
                    &&& owner@ == self@.awaited(waker)
                    &&& *final(owner.contract) == *final(self.contract)
                },
            },
    {
        let mut owner = self;
        match owner.poll_with(waker) {
            Poll::Ready(()) => Ok(owner.aquire_unchecked()),
            Poll::Pending => Err(owner),
        }
    }

    /// The unique view. The caller answers for it that no borrow is left.
    pub fn aquire_unchecked(self) -> (unique: UniqueView<'owner, T>)
        requires
            self@.counter == 0,
        ensures
            unique@ == self@,
            *final(unique.contract) == *final(self.contract),
    {
        UniqueView { contract: self.contract }
    }
}

/// A view to an inactive contract from the perspective of the owner.
///
/// Borrows the owner mutably.
pub struct UniqueView<'owner, T> {
    /// The memory of the owner.
    pub contract: &'owner mut Contract<T>,
}

impl<'owner, T> UniqueView<'owner, T> {
    /// The contract as the view finds it.
    pub open spec fn view(self) -> ContractView<T> {
        self.contract@
    }

    /// The value.
    pub fn as_ref(&self) -> (val: &T)
        ensures
            *val == self@.val,
    {
        self.contract.as_ref()
    }

    /// The value, to be changed in place.
    pub fn as_mut(&mut self) -> (val: &mut T)
        requires
            old(self)@.counter == 0,
        ensures
            *val == old(self)@.val,
            final(self)@ == (ContractView { val: *final(val), ..old(self)@ }),
            *final(final(self).contract) == *final(old(self).contract),
    {
        self.contract.as_mut()
    }

    /// Lends the value out to one visitor.
    pub fn share(self) -> (shared: (OwnerView<'owner, T>, VisitorView<T>))
        requires
            self@.counter == 0,
        ensures
            shared.0@.is_loan_of(self@),
            *final(shared.0.contract) == *final(self.contract),
            shared.1.contract() == self@.id,
    {
        let contract = self.contract;
        contract.init_visitor();
        let visitor = VisitorView { contract: Ghost(contract@.id), _value: PhantomData };
        (OwnerView { contract }, visitor)
    }

    /// Gives up the knowledge that no borrow is left.
    pub fn as_owner(self) -> (owner: OwnerView<'owner, T>)
        ensures
            owner@ == self@,
            *final(owner.contract) == *final(self.contract),
    {
        OwnerView { contract: self.contract }
    }
}

/// A view to the memory that is being borrowed from the perspective of the visitor: one of the
/// borrows that the counter of the contract counts.
///
/// A visitor has no lifetime in its type. It names its contract and reaches the memory through
/// whoever has it at hand. So it cannot give its borrow back by itself: one that goes out of
/// scope without `drop` keeps it, and the owner waits for ever.
#[must_use]
pub struct VisitorView<T> {
    /// The contract that the borrow belongs to.
    contract: Ghost<int>,
    _value: PhantomData<T>,
}

impl<T> VisitorView<T> {
    /// The contract that the borrow belongs to.
    pub closed spec fn contract(self) -> int {
        self.contract@
    }

    /// Whether the borrow is one that `contract` counts.
    pub open spec fn borrows(self, contract: ContractView<T>) -> bool {
        &&& contract.id == self.contract()
        &&& contract.counter >= 2
    }

    /// Whether the borrow is the only one that `contract` counts.
    pub open spec fn borrows_alone(self, contract: ContractView<T>) -> bool {
        &&& contract.id == self.contract()
        &&& contract.counter == 2
    }

    /// The value.
    pub fn as_ref<'a>(&self, contract: &'a Contract<T>) -> (val: &'a T)
        requires
            self.borrows(contract@),
        ensures
            *val == contract@.val,
    {
        contract.as_ref()
    }

    /// The value, to be changed in place. The caller answers for it that there is no other
    /// visitor.
    pub fn as_mut<'a>(&mut self, contract: &'a mut Contract<T>) -> (val: &'a mut T)
        requires
            old(self).borrows_alone(old(contract)@),
        ensures
            *final(self) == *old(self),
            *val == old(contract)@.val,
            final(contract)@ == (ContractView { val: *final(val), ..old(contract)@ }),
    {
        contract.as_mut()
    }

    /// One more visitor.
    pub fn clone(&self, contract: &mut Contract<T>) -> (visitor: Self)
        requires
            self.borrows(old(contract)@),
            old(contract)@.counter < usize::MAX,
        ensures
            visitor.contract() == self.contract(),
            final(contract)@ == old(contract)@.incremented(),
    {
        contract.increment_unchecked();
        VisitorView { contract: Ghost(self.contract@), _value: PhantomData }
    }

    /// Ends the borrow. The last one wakes the owner.
    pub fn drop(self, contract: &mut Contract<T>)
        requires
            self.borrows(old(contract)@),
            old(contract)@.wf(),
        ensures
            final(contract)@ == old(contract)@.decremented(),
            final(contract)@.wf(),
    {
        contract.decrement();
    }
}

} // verus!
