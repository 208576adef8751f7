//! References without a lifetime to a value that is managed by a contract.
use crate::contract::{Contract, ContractView};
use crate::protocol::{Order, Reply, Request};
use crate::views::VisitorView;
use vstd::prelude::*;

verus! {

/// A lifetimeless reference to a value managed by a contract.
///
/// It keeps its borrow until `drop` is called, also where it goes out of scope before.
#[must_use]
pub struct Ref<T> {
    pub visitor: VisitorView<T>,
}

impl<T> Ref<T> {
    /// The value.
    pub fn deref<'a>(&self, contract: &'a Contract<T>) -> (val: &'a T)
        requires
            self.visitor.borrows(contract@),
        ensures
            *val == contract@.val,
    {
        self.visitor.as_ref(contract)
    }

    /// One more reference.
    pub fn clone(&self, contract: &mut Contract<T>) -> (other: Self)
        requires
            self.visitor.borrows(old(contract)@),
            old(contract)@.counter < usize::MAX,
        ensures
            other.visitor.contract() == self.visitor.contract(),
            final(contract)@ == old(contract)@.incremented(),
    {
        Ref { visitor: self.visitor.clone(contract) }
    }

    /// Ends the borrow. The last one wakes the owner.
    pub fn drop(self, contract: &mut Contract<T>)
        requires
            self.visitor.borrows(old(contract)@),
            old(contract)@.wf(),
        ensures
            final(contract)@ == old(contract)@.decremented(),
            final(contract)@.wf(),
    {
        self.visitor.drop(contract);
    }
}

/// A lifetimeless upgradable reference to a value managed by a contract.
///
/// It keeps its borrow until `drop` is called, also where it goes out of scope before.
#[must_use]
pub struct UpgRef<T> {
    pub visitor: VisitorView<T>,
}

/// The access that tells whether a reference is the only one: it finds a counter of two and
/// leaves it at that.
pub open spec fn sole_borrow_check() -> Request {
    Request::CompareExchange {
        current: 2,
        new: 2,
        success: Order::Acquire,
        failure: Order::Relaxed,
    }
}

impl<T> UpgRef<T> {
    /// The value.
    pub fn deref<'a>(&self, contract: &'a Contract<T>) -> (val: &'a T)
        requires
            self.visitor.borrows(contract@),
        ensures
            *val == contract@.val,
    {
        self.visitor.as_ref(contract)
    }

    /// The access by which an upgrade looks for other references.
    pub fn upgrade_request() -> (request: Request)
        ensures
            request == sole_borrow_check(),
    {
        Request::CompareExchange {
            current: 2,
            new: 2,
            success: Order::Acquire,
            failure: Order::Relaxed,
        }
    }

    /// Whether the access that looks for other references found none.
    pub fn is_sole(exchanged: Result<usize, usize>) -> (sole: bool)
        ensures
            sole == (exchanged is Ok),
    {
        exchanged.is_ok()
    }

    /// Upgrades to a mutable reference if the access that looks for other references succeeded.
    pub fn upgrade_with(self, exchanged: Result<usize, usize>) -> (upgraded: Result<
        RefMut<T>,
        Self,
    >)
        ensures
            match upgraded {
                Ok(mutable) => exchanged is Ok && mutable.visitor == self.visitor,
                Err(shared) => exchanged is Err && shared == self,
            },
    {
        if Self::is_sole(exchanged) {
            Ok(RefMut { visitor: self.visitor })
        } else {
            Err(self)
        }
    }

    /// Tries to upgrade to a mutable reference.
    ///
    /// Fails if other references exist.
    pub fn upgrade(self, contract: &mut Contract<T>) -> (upgraded: Result<RefMut<T>, Self>)
        requires
            self.visitor.borrows(old(contract)@),
        ensures
            match upgraded {
                Ok(mutable) => mutable.visitor == self.visitor && self.visitor.borrows_alone(
                    old(contract)@,
                ),
                Err(shared) => shared == self && !self.visitor.borrows_alone(old(contract)@),
            },
            final(contract)@ == old(contract)@,
    {
        match contract.access(Self::upgrade_request()) {
            Reply::Exchanged(exchanged) => self.upgrade_with(exchanged),
            _ => Err(self),
        }
    }

    /// Trades upgradable access for easier sending.
    pub fn as_ref(self) -> (reference: Ref<T>)
        ensures
            reference.visitor == self.visitor,
    {
        Ref { visitor: self.visitor }
    }

    /// One more reference.
    pub fn clone(&self, contract: &mut Contract<T>) -> (other: Self)
        requires
            self.visitor.borrows(old(contract)@),
            old(contract)@.counter < usize::MAX,
        ensures
            other.visitor.contract() == self.visitor.contract(),
            final(contract)@ == old(contract)@.incremented(),
    {
        UpgRef { visitor: self.visitor.clone(contract) }
    }

    /// Ends the borrow. The last one wakes the owner.
    pub fn drop(self, contract: &mut Contract<T>)
        requires
            self.visitor.borrows(old(contract)@),
            old(contract)@.wf(),
        ensures
            final(contract)@ == old(contract)@.decremented(),
            final(contract)@.wf(),
    {
        self.visitor.drop(contract);
    }
}

/// A lifetimeless mutable reference to a value managed by a contract.
///
/// It keeps its borrow until `drop` is called, also where it goes out of scope before.
#[must_use]
pub struct RefMut<T> {
    pub visitor: VisitorView<T>,
}

impl<T> RefMut<T> {
    /// The value.
    pub fn deref<'a>(&self, contract: &'a Contract<T>) -> (val: &'a T)
        requires
            self.visitor.borrows(contract@),
        ensures
            *val == contract@.val,
    {
        self.visitor.as_ref(contract)
    }

    /// The value, to be changed in place.
    pub fn deref_mut<'a>(&mut self, contract: &'a mut Contract<T>) -> (val: &'a mut T)
        requires
            old(self).visitor.borrows_alone(old(contract)@),
        ensures
            *final(self) == *old(self),
            *val == old(contract)@.val,
            final(contract)@ == (ContractView { val: *final(val), ..old(contract)@ }),
    {
        self.visitor.as_mut(contract)
    }

    /// Downgrades the reference to an upgradable reference.
    ///
    /// Most suitable for values that can be sent.
    pub fn downgrade(self) -> (upgradable: UpgRef<T>)
        ensures
            upgradable.visitor == self.visitor,
    {
        UpgRef { visitor: self.visitor }
    }

    /// Trades mutable access for cloning.
    pub fn as_ref(self) -> (reference: Ref<T>)
        ensures
            reference.visitor == self.visitor,
    {
        Ref { visitor: self.visitor }
    }

    /// Ends the borrow. The last one wakes the owner.
    pub fn drop(self, contract: &mut Contract<T>)
        requires
            self.visitor.borrows(old(contract)@),
            old(contract)@.wf(),
        ensures
            final(contract)@ == old(contract)@.decremented(),
            final(contract)@.wf(),
    {
        self.visitor.drop(contract);
    }
}

impl<T> From<RefMut<T>> for Ref<T> {
    fn from(value: RefMut<T>) -> (reference: Self) {
        value.as_ref()
    }
}

impl<T> vstd::std_specs::convert::FromSpecImpl<RefMut<T>> for Ref<T> {
    open spec fn obeys_from_spec() -> bool {
        true
    }

    open spec fn from_spec(value: RefMut<T>) -> Self {
        Ref { visitor: value.visitor }
    }
}

impl<T> From<UpgRef<T>> for Ref<T> {
    fn from(value: UpgRef<T>) -> (reference: Self) {
        value.as_ref()
    }
}

impl<T> vstd::std_specs::convert::FromSpecImpl<UpgRef<T>> for Ref<T> {
    open spec fn obeys_from_spec() -> bool {
        true
    }

    open spec fn from_spec(value: UpgRef<T>) -> Self {
        Ref { visitor: value.visitor }
    }
}

/// An upgrade that succeeds sees all that the visitors before it did: the access by which it looks
/// for them acquires what they have released, and leaves the counter as it is.
pub proof fn law_upgrade_sees_what_was_done(word: crate::protocol::Word)
    ensures
        crate::protocol::sees(sole_borrow_check()),
        word.performed(sole_borrow_check()) == word,
        word.answer(sole_borrow_check()) is Exchanged,
        word.answer(sole_borrow_check())->Exchanged_0 is Ok <==> word.counter == 2,
{
}

} // verus!
