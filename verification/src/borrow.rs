//! What an owner holds of its own memory: the right to wait for it, or the memory itself.
use crate::contract::ContractView;
use crate::reference::{Ref, RefMut};
use crate::views::{OwnerView, UniqueView};
use std::task::Waker;
use vstd::prelude::*;

verus! {

/// Memory that may be lent out, from the side of its owner.
pub struct Share<'owner, T> {
    pub owner: OwnerView<'owner, T>,
}

impl<'owner, T> Share<'owner, T> {
    /// The contract as the owner finds it.
    pub open spec fn view(self) -> ContractView<T> {
        self.owner@
    }

    /// One attempt to get the value back: the value where no borrow is left; otherwise the share
    /// itself, with `waker` left to be woken when it is time for another attempt.
    pub fn aquire(self, waker: Waker) -> (aquired: Result<Borrow<'owner, T>, Self>)
        requires
            self@.wf(),
            self@.counter != 1,
            self@.counter < usize::MAX,
        ensures
            match aquired {
                Ok(borrow) => {
                    &&& self@.counter == 0
                    &&& borrow@ == self@
                    &&& *final(borrow.unique.contract) == *final(self.owner.contract)
                },
                Err(share) => {
                    &&& self@.counter != 0
                    &&& share@ == self@.awaited(waker)
                    &&& *final(share.owner.contract) == *final(self.owner.contract)
                },
            },
    {
        match self.owner.aquire(waker) {
            Ok(unique) => Ok(Borrow { unique }),
            Err(owner) => Err(Share { owner }),
        }
    }

    /// The value. The caller answers for it that no borrow is left.
    pub fn aquire_unchecked(self) -> (borrow: Borrow<'owner, T>)
        requires
            self@.counter == 0,
        ensures
            borrow@ == self@,
            *final(borrow.unique.contract) == *final(self.owner.contract),
    {
        Borrow { unique: self.owner.aquire_unchecked() }
    }

    /// Gives up the hold on the value.
    pub fn from_unique(unique: Borrow<'owner, T>) -> (share: Self)
        ensures
            share@ == unique@,
            *final(share.owner.contract) == *final(unique.unique.contract),
    {
        Share { owner: unique.unique.as_owner() }
    }
}

/// Memory that nobody else has borrowed, from the side of its owner.
///
/// Lending the value and changing it ask for a counter of zero, so that a borrow on memory that
/// is lent out is good for nothing but reading.
pub struct Borrow<'owner, T> {
    pub unique: UniqueView<'owner, T>,
}

impl<'owner, T> Borrow<'owner, T> {
    /// The contract as the owner finds it.
    pub open spec fn view(self) -> ContractView<T> {
        self.unique@
    }

    /// Lends the value out for reading.
    pub fn borrow_ref(self) -> (lent: (Share<'owner, T>, Ref<T>))
        requires
            self@.counter == 0,
        ensures
            lent.0@.is_loan_of(self@),
            *final(lent.0.owner.contract) == *final(self.unique.contract),
            lent.1.visitor.contract() == self@.id,
    {
        let (owner, visitor) = self.unique.share();
        (Share { owner }, Ref { visitor })
    }

    /// Lends the value out for writing.
    pub fn borrow_mut(self) -> (lent: (Share<'owner, T>, RefMut<T>))
        requires
            self@.counter == 0,
        ensures
            lent.0@.is_loan_of(self@),
            *final(lent.0.owner.contract) == *final(self.unique.contract),
            lent.1.visitor.contract() == self@.id,
    {
        let (owner, visitor) = self.unique.share();
        (Share { owner }, RefMut { visitor })
    }

    /// Lends the value out for reading, and leaves the waiting to whoever has the memory.
    pub fn as_ref(self) -> (reference: Ref<T>)
        requires
            self@.counter == 0,
        ensures
            final(self.unique.contract)@.is_loan_of(self@),
            reference.visitor.contract() == self@.id,
    {
        self.borrow_ref().1
    }

    /// Lends the value out for writing, and leaves the waiting to whoever has the memory.
    pub fn as_mut(self) -> (reference: RefMut<T>)
        requires
            self@.counter == 0,
        ensures
            final(self.unique.contract)@.is_loan_of(self@),
            reference.visitor.contract() == self@.id,
    {
        self.borrow_mut().1
    }

    /// The value, to be changed in place.
    pub fn deref_mut(&mut self) -> (val: &mut T)
        requires
            old(self)@.counter == 0,
        ensures
            *val == old(self)@.val,
            final(self)@ == (ContractView { val: *final(val), ..old(self)@ }),
            *final(final(self).unique.contract) == *final(old(self).unique.contract),
    {
        self.unique.as_mut()
    }
}

impl<'owner, T> std::ops::Deref for Borrow<'owner, T> {
    type Target = T;

    fn deref(&self) -> (val: &T)
        ensures
            *val == self@.val,
    {
        self.unique.as_ref()
    }
}

impl<'owner, T> From<Borrow<'owner, T>> for Share<'owner, T> {
    fn from(unique: Borrow<'owner, T>) -> (share: Self)
        ensures
            share@ == unique@,
            *final(share.owner.contract) == *final(unique.unique.contract),
    {
        Self::from_unique(unique)
    }
}

// A share is not a function of the borrow alone: it holds a new reference to the memory. What
// it is stands at `from`.
impl<'owner, T> vstd::std_specs::convert::FromSpecImpl<Borrow<'owner, T>> for Share<'owner, T> {
    open spec fn obeys_from_spec() -> bool {
        false
    }

    open spec fn from_spec(unique: Borrow<'owner, T>) -> Self {
        arbitrary()
    }
}

} // verus!
