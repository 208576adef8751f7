//! Who holds what of a contract: its visitors, and its owner.
//!
//! Each act is a call of a function of `borrow`, `reference` or `views`. It can be done where
//! that function's `requires` is met by somebody who has the handle that it takes.
use crate::contract::ContractView;
use std::task::Waker;
use vstd::prelude::*;

verus! {

/// A contract together with everyone who has a handle on it.
pub struct Holders<T> {
    pub contract: ContractView<T>,
    /// The visitors.
    pub visitors: Set<int>,
    /// The owner has a `Borrow`; otherwise it has a `Share`.
    pub unique: bool,
}

/// What a holder can do.
pub enum Act<T> {
    /// The owner asks for the value: `Share::aquire`.
    Aquire(Waker),
    /// The owner gives up its hold on the value: `Share::from_unique`.
    Yield,
    /// The owner lends the value out: `Borrow::borrow_ref` or `Borrow::borrow_mut`.
    Lend { visitor: int, noop: Waker },
    /// The owner writes the value: `Borrow::deref_mut`.
    WriteOwn(T),
    /// A visitor is cloned: `Ref::clone` or `UpgRef::clone`.
    Clone { visitor: int, other: int },
    /// A visitor writes the value: `RefMut::deref_mut`.
    Write { visitor: int, val: T },
    /// A visitor gives its borrow back: `Ref::drop`, `UpgRef::drop` or `RefMut::drop`.
    Drop { visitor: int },
}

impl<T> Holders<T> {
    /// The contract is free, and nobody visits it.
    pub open spec fn initial(self) -> bool {
        &&& self.contract.wf()
        &&& self.contract.counter == 0
        &&& self.visitors == Set::<int>::empty()
    }

    /// Whether somebody has the handle for an act, and the act's `requires` is met.
    pub open spec fn can(self, act: Act<T>) -> bool {
        match act {
            Act::Aquire(_) => !self.unique && self.contract.wf() && self.contract.counter != 1
                && self.contract.counter < usize::MAX,
            Act::Yield => self.unique,
            Act::Lend { visitor, .. } => self.unique && self.contract.counter == 0
                && !self.visitors.contains(visitor),
            Act::WriteOwn(_) => self.unique && self.contract.counter == 0,
            Act::Clone { visitor, other } => self.visitors.contains(visitor)
                && !self.visitors.contains(other) && 2 <= self.contract.counter < usize::MAX,
            Act::Write { visitor, .. } => self.visitors.contains(visitor)
                && self.contract.counter == 2,
            Act::Drop { visitor } => self.visitors.contains(visitor) && self.contract.counter >= 2
                && self.contract.wf(),
        }
    }

    /// The holders after an act.
    pub open spec fn done(self, act: Act<T>) -> Holders<T> {
        match act {
            Act::Aquire(waker) => Holders {
                contract: self.contract.awaited(waker),
                unique: self.contract.counter == 0,
                ..self
            },
            Act::Yield => Holders { unique: false, ..self },
            Act::Lend { visitor, noop } => Holders {
                contract: self.contract.lent(noop),
                visitors: self.visitors.insert(visitor),
                unique: false,
            },
            Act::WriteOwn(val) => Holders {
                contract: ContractView { val, ..self.contract },
                ..self
            },
            Act::Clone { other, .. } => Holders {
                contract: self.contract.incremented(),
                visitors: self.visitors.insert(other),
                ..self
            },
            Act::Write { val, .. } => Holders {
                contract: ContractView { val, ..self.contract },
                ..self
            },
            Act::Drop { visitor } => Holders {
                contract: self.contract.decremented(),
                visitors: self.visitors.remove(visitor),
                ..self
            },
        }
    }

    /// The holders after some acts.
    pub open spec fn all_done(self, acts: Seq<Act<T>>) -> Holders<T>
        decreases acts.len(),
    {
        if acts.len() == 0 {
            self
        } else {
            self.all_done(acts.drop_last()).done(acts.last())
        }
    }

    /// Whether the acts can be done one after the other.
    pub open spec fn can_all(self, acts: Seq<Act<T>>) -> bool
        decreases acts.len(),
    {
        acts.len() > 0 ==> {
            &&& self.can_all(acts.drop_last())
            &&& self.all_done(acts.drop_last()).can(acts.last())
        }
    }

    /// The counter tells the number of visitors, and there is none where the owner has the
    /// value to itself.
    pub open spec fn counted(self) -> bool {
        &&& self.contract.wf()
        &&& self.contract.counter != 1
        &&& self.visitors.finite()
        &&& self.contract.borrows() == self.visitors.len()
        &&& self.unique ==> self.visitors == Set::<int>::empty()
    }
}

/// The value that was written last, or `val` where none was.
pub open spec fn last_written<T>(val: T, acts: Seq<Act<T>>) -> T
    decreases acts.len(),
{
    if acts.len() == 0 {
        val
    } else {
        match acts.last() {
            Act::WriteOwn(written) => written,
            Act::Write { val: written, .. } => written,
            _ => last_written(val, acts.drop_last()),
        }
    }
}

/// Whatever the holders of a contract do, the counter tells how many visitors there are, there
/// is none while the owner has the value to itself, and the value is the one written last.
pub proof fn law_holders_are_counted<T>(start: Holders<T>, acts: Seq<Act<T>>)
    requires
        start.initial(),
        start.can_all(acts),
    ensures
        start.all_done(acts).counted(),
        start.all_done(acts).contract.id == start.contract.id,
        start.all_done(acts).contract.val == last_written(start.contract.val, acts),
    decreases acts.len(),
{
    if acts.len() > 0 {
        let before = start.all_done(acts.drop_last());
        law_holders_are_counted(start, acts.drop_last());
        if before.visitors.len() == 0 {
            before.visitors.lemma_len0_is_empty();
        }
    }
}

/// Who writes the value has it alone: the owner writes where there is no visitor, and a visitor
/// where there is no other and the owner waits.
pub proof fn law_writer_is_alone<T>(start: Holders<T>, acts: Seq<Act<T>>, act: Act<T>)
    requires
        start.initial(),
        start.can_all(acts.push(act)),
    ensures
        act is WriteOwn || act is Lend ==> start.all_done(acts).visitors == Set::<int>::empty(),
        act matches Act::Write { visitor, .. } ==> start.all_done(acts).visitors =~= set![visitor]
            && !start.all_done(acts).unique,
{
    assert(acts.push(act).drop_last() =~= acts);
    law_holders_are_counted(start, acts);
    let now = start.all_done(acts);
    if now.visitors.len() == 0 {
        now.visitors.lemma_len0_is_empty();
    }
    if now.visitors.len() == 1 {
        Set::lemma_is_singleton(now.visitors);
    }
}

/// No handle is ever of no use: a visitor finds a contract that counts it, and one that is alone
/// can write; the owner gets the value when it asks if and only if there is no visitor, and who
/// has got it can lend it and write.
pub proof fn law_handles_can_be_used<T>(start: Holders<T>, acts: Seq<Act<T>>, visitor: int, val: T)
    requires
        start.initial(),
        start.can_all(acts),
    ensures
        ({
            let now = start.all_done(acts);
            &&& now.visitors.contains(visitor) ==> now.can(Act::Drop { visitor })
            &&& now.visitors =~= set![visitor] ==> now.can(Act::Write { visitor, val })
            &&& now.unique ==> now.can(Act::WriteOwn(val))
            &&& now.contract.counter == 0 <==> now.visitors == Set::<int>::empty()
        }),
{
    law_holders_are_counted(start, acts);
    let now = start.all_done(acts);
    if now.visitors.len() == 0 {
        now.visitors.lemma_len0_is_empty();
    }
}

} // verus!
