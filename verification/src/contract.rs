//! The contract: the memory of one lent value.
use crate::access::access_word;
use crate::kept::kept_mut;
use crate::protocol::{
    add_borrow_request, Decrement, Increment, Reply, Request, SetWaker, Word,
};
use crate::wakers::Wakes;
use std::mem::ManuallyDrop;
use std::task::{Context, Waker};
use vstd::prelude::*;

verus! {

/// The place where the owner leaves the waker that ends its wait.
pub enum WakerSlot {
    /// There is no waker.
    Unset,
    /// A waker that does nothing: the owner has not waited yet.
    Noop(Waker),
    /// The waker of the task that the owner waits in.
    Task(Waker),
}

impl WakerSlot {
    /// The waker in the slot, if there is one.
    pub open spec fn held(self) -> Seq<Waker> {
        match self {
            WakerSlot::Unset => Seq::empty(),
            WakerSlot::Noop(waker) => seq![waker],
            WakerSlot::Task(waker) => seq![waker],
        }
    }

    /// That the slot holds a waker that does nothing.
    pub open spec fn is_noop(self) -> bool {
        self matches WakerSlot::Noop(waker) && crate::wakers::is_noop(waker)
    }
}

/// Memory that can be lent out to visitors and comes back to its owner.
///
/// Even in the case of direct ownership, nobody changes the value but through a view: that of
/// the owner while there is no borrow, or that of a visitor while it has the only one.
///
/// A contract that is dropped drops neither its value nor its waker. The value is to be moved
/// out, when all borrows have ended.
pub struct Contract<T> {
    /// The number of borrows plus one, or zero where there is none. At one, the waker slot is
    /// being worked on.
    counter: usize,
    /// The waker for alerting the owner that the last borrow is over: unset where the counter
    /// is zero, set where it is two or more.
    waker: ManuallyDrop<WakerSlot>,
    /// The stored value that is being borrowed.
    val: ManuallyDrop<T>,
    /// What became of the wakers that were in the slot.
    wakes: Wakes,
    /// Names the contract. No contract of a function says which name it is, only that it stays
    /// the same, so that a borrow can be shown to belong to the contract that issued it and to
    /// no other.
    id: Ghost<int>,
}

/// What a contract holds.
#[verifier::ext_equal]
pub struct ContractView<T> {
    pub id: int,
    pub counter: usize,
    pub waker: WakerSlot,
    pub val: T,
    /// The wakers that were woken on behalf of the contract, in order.
    pub woken: Seq<Waker>,
    /// The wakers that were left in the slot when it was filled anew, in order: they were neither
    /// woken nor dropped.
    pub forgotten: Seq<Waker>,
}

impl<T> View for Contract<T> {
    type V = ContractView<T>;

    closed spec fn view(&self) -> ContractView<T> {
        ContractView {
            id: self.id@,
            counter: self.counter,
            waker: self.waker@,
            val: self.val@,
            woken: self.wakes@.woken,
            forgotten: self.wakes@.forgotten,
        }
    }
}

impl<T> ContractView<T> {
    /// The part that the counter protocol is about.
    pub open spec fn word(self) -> Word {
        Word { counter: self.counter, waker: self.waker !is Unset }
    }

    /// There is no waker while the counter is zero, and there is one while it is two or more.
    pub open spec fn wf(self) -> bool {
        self.word().wf()
    }

    /// The number of borrows that the counter stands for.
    pub open spec fn borrows(self) -> int {
        if self.counter == 0 {
            0
        } else {
            self.counter - 1
        }
    }

    /// The contract of a value that was just lent out to one visitor, with `noop` for a waker.
    /// A waker that was in the slot is forgotten.
    pub open spec fn lent(self, noop: Waker) -> ContractView<T> {
        ContractView {
            counter: 2,
            waker: WakerSlot::Noop(noop),
            forgotten: self.forgotten + self.waker.held(),
            ..self
        }
    }

    /// That this is the contract of a value that was just lent out to one visitor, with a waker
    /// that does nothing, where it was `before`.
    pub open spec fn is_loan_of(self, before: ContractView<T>) -> bool {
        &&& self.waker.is_noop()
        &&& self == before.lent(self.waker->Noop_0)
    }

    /// The contract with one borrow more, where there was one.
    pub open spec fn incremented(self) -> ContractView<T> {
        ContractView { counter: (self.counter + 1) as usize, ..self }
    }

    /// The contract with one borrow less. The last one empties the waker slot and wakes what was
    /// in it; no other wakes anyone.
    pub open spec fn decremented(self) -> ContractView<T> {
        if self.counter == 2 {
            ContractView {
                counter: 0,
                waker: WakerSlot::Unset,
                woken: self.woken + self.waker.held(),
                ..self
            }
        } else {
            ContractView { counter: (self.counter - 1) as usize, ..self }
        }
    }

    /// The contract after its owner has asked for the value: the owner leaves its waker where
    /// there are borrows to wait for.
    pub open spec fn awaited(self, waker: Waker) -> ContractView<T> {
        if self.counter == 0 {
            self
        } else {
            ContractView { waker: WakerSlot::Task(waker), ..self }
        }
    }
}

impl<T> Contract<T> {
    /// A contract for a value that nobody has borrowed.
    pub fn new(val: T) -> (contract: Self)
        ensures
            contract@.counter == 0,
            contract@.waker is Unset,
            contract@.val == val,
            contract@.woken == Seq::<Waker>::empty(),
            contract@.forgotten == Seq::<Waker>::empty(),
            contract@.wf(),
    {
        Contract {
            counter: 0,
            waker: ManuallyDrop::new(WakerSlot::Unset),
            val: ManuallyDrop::new(val),
            wakes: Wakes::new(),
            id: Ghost(0),
        }
    }

    /// Performs one access to the counter.
    pub fn access(&mut self, request: Request) -> (reply: Reply)
        requires
            request.on_counter(),
        ensures
            final(self)@ == (ContractView {
                counter: old(self)@.word().performed(request).counter,
                ..old(self)@
            }),
            reply == old(self)@.word().answer(request),
    {
        access_word(&mut self.counter, request)
    }

    /// Fills the waker slot with a waker that does nothing. The slot is taken to be empty: a
    /// waker that is in it is forgotten.
    pub fn write_noop(&mut self)
        ensures
            final(self)@.waker.is_noop(),
            final(self)@ == (ContractView {
                waker: final(self)@.waker,
                forgotten: old(self)@.forgotten + old(self)@.waker.held(),
                ..old(self)@
            }),
    {
        match self.take_waker() {
            WakerSlot::Unset => {},
            WakerSlot::Noop(waker) => self.wakes.forget(waker),
            WakerSlot::Task(waker) => self.wakes.forget(waker),
        }
        self.waker = ManuallyDrop::new(WakerSlot::Noop(futures::task::noop_waker()));
    }

    /// Replaces what is in the waker slot by the waker of a task. What was in it is dropped.
    pub fn write_waker(&mut self, waker: Waker)
        ensures
            final(self)@ == (ContractView { waker: WakerSlot::Task(waker), ..old(self)@ }),
    {
        self.take_waker();
        self.waker = ManuallyDrop::new(WakerSlot::Task(waker));
    }

    /// Empties the waker slot.
    pub fn take_waker(&mut self) -> (taken: WakerSlot)
        ensures
            taken == old(self)@.waker,
            final(self)@ == (ContractView { waker: WakerSlot::Unset, ..old(self)@ }),
    {
        let mut taken = ManuallyDrop::new(WakerSlot::Unset);
        std::mem::swap(&mut taken, &mut self.waker);
        ManuallyDrop::into_inner(taken)
    }

    /// Empties the waker slot and wakes what was in it.
    pub fn wake_owner(&mut self)
        ensures
            final(self)@ == (ContractView {
                waker: WakerSlot::Unset,
                woken: old(self)@.woken + old(self)@.waker.held(),
                ..old(self)@
            }),
    {
        match self.take_waker() {
            WakerSlot::Unset => {},
            WakerSlot::Noop(waker) => self.wakes.wake(waker),
            WakerSlot::Task(waker) => self.wakes.wake(waker),
        }
    }

    /// Increments the count, assuming that there is a visitor who keeps its borrow meanwhile.
    ///
    /// Only visitors may call this. The count wraps around at the end of its range.
    pub fn increment_unchecked(&mut self) -> (previous: usize)
        ensures
            previous == old(self)@.counter,
            final(self)@ == (ContractView {
                counter: if previous == usize::MAX { 0 } else { (previous + 1) as usize },
                ..old(self)@
            }),
    {
        match self.access(add_borrow_request()) {
            Reply::Value(previous) => previous,
            _ => 0,
        }
    }

    /// Leaves `waker` in the contract, to be woken when the last borrow ends. Where there is no
    /// borrow the contract stays as it is, and the result is `None`.
    ///
    /// The owner must be unique.
    pub fn set_waker(&mut self, waker: Waker) -> (set: Option<()>)
        requires
            old(self)@.wf(),
            old(self)@.counter != 1,
            old(self)@.counter < usize::MAX,
        ensures
            set is None <==> old(self)@.counter == 0,
            final(self)@ == old(self)@.awaited(waker),
            final(self)@.wf(),
    {
        let ghost start = self@;
        let mut left: Option<Waker> = Some(waker);
        let mut at = SetWaker::Load;
        loop
            invariant
                at.wf(),
                start == old(self)@,
                2 <= start.counter < usize::MAX || start.counter == 0,
                start.wf(),
                match at {
                    SetWaker::Load => self@ == start && left == Some(waker),
                    SetWaker::Exchange { seen } => self@ == start && seen == start.counter && left
                        == Some(waker),
                    SetWaker::WriteWaker { seen } => self@ == (ContractView {
                        counter: (start.counter + 1) as usize,
                        ..start
                    }) && seen == start.counter && left == Some(waker),
                    SetWaker::Release(release) => self@ == (ContractView {
                        counter: (start.counter + 1) as usize,
                        ..start.awaited(waker)
                    }) && start.counter != 0 && (release is Load || release == (
                    Decrement::Exchange { seen: (start.counter + 1) as usize })),
                    SetWaker::Done { set } => set == (start.counter != 0) && self@ == start.awaited(
                        waker,
                    ),
                },
            decreases
                    match at {
                        SetWaker::Load => 5int,
                        SetWaker::Exchange { .. } => 4,
                        SetWaker::WriteWaker { .. } => 3,
                        SetWaker::Release(release) => if release is Load {
                            2int
                        } else {
                            1
                        },
                        SetWaker::Done { .. } => 0,
                    },
        {
            match at {
                SetWaker::Done { set } => {
                    return if set {
                        Some(())
                    } else {
                        None
                    };
                },
                SetWaker::WriteWaker { .. } => {
                    if let Some(waker) = left.take() {
                        self.write_waker(waker);
                    }
                    at = at.resume(Reply::Done);
                },
                _ => {
                    let reply = self.access(at.request());
                    at = at.resume(reply);
                },
            }
        }
    }

    /// Leaves the waker of the polling task in the contract, to be woken when the last borrow
    /// ends. Where there is no borrow the contract stays as it is, and the result is `None`.
    ///
    /// The owner must be unique.
    pub fn try_set_waker(&mut self, cx: &mut Context<'_>) -> (set: Option<()>)
        requires
            old(self)@.wf(),
            old(self)@.counter != 1,
            old(self)@.counter < usize::MAX,
        ensures
            set is None <==> old(self)@.counter == 0,
            exists|waker: Waker| #[trigger]
                crate::wakers::waker_of(*old(cx), waker) && final(self)@ == old(self)@.awaited(
                    waker,
                ),
            final(self)@.wf(),
            *final(cx) == *old(cx),
    {
        let lent = cx.waker();
        let waker = lent.clone();
        assert(crate::wakers::waker_of(*old(cx), waker));
        self.set_waker(waker)
    }

    /// Starts the contract with one visitor and a waker that does nothing.
    ///
    /// A waker that is in the slot, as it is where the counter is not zero, is forgotten: it is
    /// neither woken nor dropped.
    pub fn init_visitor(&mut self)
        ensures
            final(self)@.is_loan_of(old(self)@),
            final(self)@.wf(),
    {
        self.counter = 2;
        self.write_noop();
    }

    /// The stored value.
    pub fn as_ref(&self) -> (val: &T)
        ensures
            *val == self@.val,
    {
        &*self.val
    }

    /// The stored value, to be changed in place. The caller answers for it that nobody else has
    /// the value.
    pub(crate) fn as_mut(&mut self) -> (val: &mut T)
        ensures
            *val == old(self)@.val,
            final(self)@ == (ContractView { val: *final(val), ..old(self)@ }),
    {
        kept_mut(&mut self.val)
    }

    /// Adds one borrow and gives the counter as it was before. The first borrow fills the waker
    /// slot with a waker that does nothing.
    pub fn increment(&mut self) -> (previous: usize)
        requires
            old(self)@.wf(),
            old(self)@.counter != 1,
            old(self)@.counter < usize::MAX,
        ensures
            previous == old(self)@.counter,
            previous == 0 ==> final(self)@.is_loan_of(old(self)@),
            previous != 0 ==> final(self)@ == old(self)@.incremented(),
            final(self)@.wf(),
    {
        let ghost start = self@;
        let mut at = Increment::Load;
        loop
            invariant
                at.wf(),
                start == old(self)@,
                2 <= start.counter < usize::MAX || start.counter == 0,
                start.wf(),
                match at {
                    Increment::Load => self@ == start,
                    Increment::Exchange { seen } => self@ == start && seen == start.counter,
                    Increment::WriteNoop => self@ == (ContractView { counter: 1, ..start })
                        && start.counter == 0,
                    Increment::Store => self@ == (ContractView {
                        counter: 1,
                        waker: self@.waker,
                        ..start
                    }) && self@.waker.is_noop() && start.counter == 0,
                    Increment::Done { previous } => previous == start.counter && if previous == 0 {
                        self@.is_loan_of(start)
                    } else {
                        self@ == start.incremented()
                    },
                },
            decreases
                    match at {
                        Increment::Load => 4int,
                        Increment::Exchange { .. } => 3,
                        Increment::WriteNoop => 2,
                        Increment::Store => 1,
                        Increment::Done { .. } => 0,
                    },
        {
            match at {
                Increment::Done { previous } => {
                    return previous;
                },
                Increment::WriteNoop => {
                    self.write_noop();
                    at = at.resume(Reply::Done);
                },
                _ => {
                    let reply = self.access(at.request());
                    at = at.resume(reply);
                },
            }
        }
    }

    /// Gives one borrow back and gives the counter as it was before. The last borrow empties the
    /// waker slot and wakes what was in it.
    pub fn decrement(&mut self) -> (previous: usize)
        requires
            old(self)@.wf(),
            old(self)@.counter >= 2,
        ensures
            previous == old(self)@.counter,
            final(self)@ == old(self)@.decremented(),
            final(self)@.wf(),
    {
        let ghost start = self@;
        let mut at = Decrement::Load;
        loop
            invariant
                at.wf(),
                start == old(self)@,
                start.counter >= 2,
                start.wf(),
                match at {
                    Decrement::Load => self@ == start,
                    Decrement::Exchange { seen } => self@ == start && seen == start.counter,
                    Decrement::TakeWaker => self@ == (ContractView { counter: 1, ..start })
                        && start.counter == 2,
                    Decrement::Store => self@ == (ContractView {
                        counter: 1,
                        ..start.decremented()
                    }) && start.counter == 2,
                    Decrement::Done { previous } => previous == start.counter && self@
                        == start.decremented(),
                },
            decreases
                    match at {
                        Decrement::Load => 4int,
                        Decrement::Exchange { .. } => 3,
                        Decrement::TakeWaker => 2,
                        Decrement::Store => 1,
                        Decrement::Done { .. } => 0,
                    },
        {
            match at {
                Decrement::Done { previous } => {
                    return previous;
                },
                Decrement::TakeWaker => {
                    self.wake_owner();
                    at = at.resume(Reply::Done);
                },
                _ => {
                    let reply = self.access(at.request());
                    at = at.resume(reply);
                },
            }
        }
    }

    /// Moves the value out, and ends the contract with it. A waker that is in the slot is not
    /// dropped.
    pub fn take_val(self) -> (val: T)
        ensures
            val == self@.val,
    {
        ManuallyDrop::into_inner(self.val)
    }
}

} // verus!
