//! An owner and any number of visitors at work on one contract at the same time.
//!
//! Each of them runs its own program of accesses. A step of the system is one access of one of
//! them, so that a run is one way in which their accesses can fall between each other, in one
//! order that all of them see. The memory orders that the accesses carry play no part here: what
//! they add on machines where threads see accesses in different orders is not stated.
use crate::protocol::{Decrement, Increment, Reply, SetWaker, Word};
use vstd::prelude::*;

verus! {

/// Where a visitor stands.
pub enum VisitorAt {
    /// It has its borrow.
    Held,
    /// It is giving its borrow back.
    Dropping(Decrement),
}

impl VisitorAt {
    /// The visitor still counts as a borrow.
    pub open spec fn counts(self) -> bool {
        match self {
            VisitorAt::Held => true,
            VisitorAt::Dropping(at) => at is Load || at is Exchange,
        }
    }

    /// The visitor is about to take the waker out of the slot.
    pub open spec fn takes_waker(self) -> bool {
        self matches VisitorAt::Dropping(at) && at is TakeWaker
    }
}

/// Where the owner stands.
pub enum OwnerAt {
    /// It has lent the value out or given up its hold on it.
    Waiting,
    /// It is asking for the value.
    Polling(SetWaker),
    /// It has the value to itself.
    Unique,
}

impl OwnerAt {
    /// The owner has a borrow of its own while it works on the waker slot.
    pub open spec fn counts(self) -> bool {
        self matches OwnerAt::Polling(at) && (at is WriteWaker || (at matches SetWaker::Release(
            release,
        ) && (release is Load || release is Exchange)))
    }

    /// The owner has found that its borrow is the last one, and is about to leave.
    pub open spec fn leaves(self) -> bool {
        self matches OwnerAt::Polling(SetWaker::Release(release)) && (release is TakeWaker
            || release is Store)
    }

    /// The owner is about to replace the waker in the slot.
    pub open spec fn writes_waker(self) -> bool {
        self matches OwnerAt::Polling(at) && at is WriteWaker
    }

    /// The owner is about to take the waker out of the slot.
    pub open spec fn takes_waker(self) -> bool {
        self matches OwnerAt::Polling(SetWaker::Release(release)) && release is TakeWaker
    }
}

/// The shared memory together with everyone who is at work on it.
pub struct System {
    pub word: Word,
    /// Those who have a borrow or are giving one back.
    pub visitors: Map<int, VisitorAt>,
    /// Those who are taking a borrow without having one to clone.
    pub newcomers: Map<int, Increment>,
    pub owner: OwnerAt,
}

/// One step of the system.
pub enum Step {
    /// The owner lends its value out to `visitor`.
    Lend { visitor: int },
    /// The owner gives up its hold on the value without lending it out.
    Yield,
    /// The owner starts to ask for the value.
    BeginPoll,
    /// The owner performs its next access.
    Poll,
    /// `visitor` is cloned to `other`.
    Clone { visitor: int, other: int },
    /// `newcomer` starts to take a borrow.
    BeginEnter { newcomer: int },
    /// `newcomer` performs its next access.
    Enter { newcomer: int },
    /// `visitor` starts to give its borrow back.
    BeginDrop { visitor: int },
    /// `visitor` performs its next access.
    Drop { visitor: int },
}

impl System {
    /// The memory is new, and so nobody visits it.
    pub open spec fn initial(self) -> bool {
        &&& self.word == (Word { counter: 0, waker: false })
        &&& self.visitors == Map::<int, VisitorAt>::empty()
        &&& self.newcomers == Map::<int, Increment>::empty()
        &&& self.owner !is Polling
    }

    /// Nobody in the system goes by this name.
    pub open spec fn is_new(self, name: int) -> bool {
        !self.visitors.contains_key(name) && !self.newcomers.contains_key(name)
    }

    /// Whether a step can be taken.
    ///
    /// A new borrow leaves room in the counter for that of the owner. Nobody takes the first
    /// borrow by itself while the owner has the value to itself: the counter is zero whether the
    /// owner has the value or waits, so no access could tell the two apart.
    pub open spec fn can(self, step: Step) -> bool {
        match step {
            Step::Lend { visitor } => self.owner is Unique && self.is_new(visitor),
            Step::Yield => self.owner is Unique,
            Step::BeginPoll => self.owner is Waiting,
            Step::Poll => self.owner is Polling,
            Step::Clone { visitor, other } => {
                &&& self.visitors.contains_key(visitor)
                &&& self.visitors[visitor] is Held
                &&& self.is_new(other)
                &&& self.word.counter < usize::MAX - 2
            },
            Step::BeginEnter { newcomer } => self.is_new(newcomer),
            Step::Enter { newcomer } => {
                &&& self.newcomers.contains_key(newcomer)
                &&& self.newcomers[newcomer] is Exchange ==> self.word.counter < usize::MAX - 2
                &&& !(self.owner is Unique && self.word.counter == 0 && self.newcomers[newcomer]
                    == (Increment::Exchange { seen: 0 }))
            },
            Step::BeginDrop { visitor } => self.visitors.contains_key(visitor)
                && self.visitors[visitor] is Held,
            Step::Drop { visitor } => self.visitors.contains_key(visitor)
                && self.visitors[visitor] is Dropping,
        }
    }

    /// The system after a step.
    pub open spec fn taken(self, step: Step) -> System {
        match step {
            Step::Lend { visitor } => System {
                word: Word { counter: 2, waker: true },
                visitors: self.visitors.insert(visitor, VisitorAt::Held),
                owner: OwnerAt::Waiting,
                ..self
            },
            Step::Yield => System { owner: OwnerAt::Waiting, ..self },
            Step::BeginPoll => System { owner: OwnerAt::Polling(SetWaker::Load), ..self },
            Step::Poll => {
                let at = self.owner->Polling_0;
                let next = at.after(self.word.answer(at.asks()));
                System {
                    word: self.word.performed(at.asks()),
                    owner: match next {
                        SetWaker::Done { set } => if set {
                            OwnerAt::Waiting
                        } else {
                            OwnerAt::Unique
                        },
                        _ => OwnerAt::Polling(next),
                    },
                    ..self
                }
            },
            Step::Clone { other, .. } => System {
                word: self.word.performed(crate::protocol::add_borrow()),
                visitors: self.visitors.insert(other, VisitorAt::Held),
                ..self
            },
            Step::BeginEnter { newcomer } => System {
                newcomers: self.newcomers.insert(newcomer, Increment::Load),
                ..self
            },
            Step::Enter { newcomer } => {
                let at = self.newcomers[newcomer];
                let next = at.after(self.word.answer(at.asks()));
                let word = self.word.performed(at.asks());
                if next is Done {
                    System {
                        word,
                        visitors: self.visitors.insert(newcomer, VisitorAt::Held),
                        newcomers: self.newcomers.remove(newcomer),
                        ..self
                    }
                } else {
                    System { word, newcomers: self.newcomers.insert(newcomer, next), ..self }
                }
            },
            Step::BeginDrop { visitor } => System {
                visitors: self.visitors.insert(visitor, VisitorAt::Dropping(Decrement::Load)),
                ..self
            },
            Step::Drop { visitor } => {
                let at = self.visitors[visitor]->Dropping_0;
                let next = at.after(self.word.answer(at.asks()));
                System {
                    word: self.word.performed(at.asks()),
                    visitors: if next is Done {
                        self.visitors.remove(visitor)
                    } else {
                        self.visitors.insert(visitor, VisitorAt::Dropping(next))
                    },
                    ..self
                }
            },
        }
    }

    /// `visitor` is about to take the waker out of the slot.
    pub open spec fn visitor_takes_waker(self, visitor: int) -> bool {
        self.visitors.contains_key(visitor) && self.visitors[visitor].takes_waker()
    }

    /// `newcomer` is about to fill the waker slot.
    pub open spec fn newcomer_fills_slot(self, newcomer: int) -> bool {
        self.newcomers.contains_key(newcomer) && self.newcomers[newcomer] is WriteNoop
    }

    /// What the documented tables promise of who may touch what, and when.
    pub open spec fn safe(self) -> bool {
        // Where the owner has the value to itself, there is no visitor.
        &&& self.owner is Unique ==> self.word.counter == 0 && self.visitors.dom() =~= Set::<
            int,
        >::empty()
        // Every visitor that has its borrow finds a counter that says so.
        &&& forall|visitor: int|
            #![trigger self.visitors[visitor]]
            self.visitors.contains_key(visitor) && self.visitors[visitor].counts()
                ==> self.word.counter >= 2
        // The waker slot is empty at zero and filled at two or more.
        &&& self.word.wf()
        // Who works on the waker slot finds it as it should be: filled to replace or to take
        // what is in it, empty to fill it.
        &&& self.owner.writes_waker() ==> self.word.waker && self.word.counter >= 2
        &&& self.owner.takes_waker() ==> self.word.waker && self.word.counter == 1
        &&& forall|visitor: int| #[trigger]
            self.visitor_takes_waker(visitor) ==> self.word.waker && self.word.counter == 1
        &&& forall|newcomer: int| #[trigger]
            self.newcomer_fills_slot(newcomer) ==> !self.word.waker && self.word.counter == 1
        // Nobody works on the waker slot together with another.
        &&& forall|visitor: int| #[trigger]
            self.visitor_takes_waker(visitor) ==> !self.owner.takes_waker()
        &&& forall|visitor: int, other: int|
            #![trigger self.visitor_takes_waker(visitor), self.visitor_takes_waker(other)]
            self.visitor_takes_waker(visitor) && self.visitor_takes_waker(other) ==> visitor
                == other
        &&& forall|newcomer: int, other: int|
            #![trigger self.newcomer_fills_slot(newcomer), self.newcomer_fills_slot(other)]
            self.newcomer_fills_slot(newcomer) && self.newcomer_fills_slot(other) ==> newcomer
                == other
        // Nobody counts past the ends of the counter.
        &&& self.owner matches OwnerAt::Polling(at) ==> at.wf() && at.accepts(
            self.word.answer(at.asks()),
        )
        &&& forall|newcomer: int|
            #![trigger self.newcomers[newcomer]]
            self.newcomers.contains_key(newcomer) ==> self.newcomers[newcomer].wf()
                && self.newcomers[newcomer].accepts(
                self.word.answer(self.newcomers[newcomer].asks()),
            )
        &&& forall|visitor: int|
            #![trigger self.visitors[visitor]]
            self.visitors.contains_key(visitor) ==> (self.visitors[visitor] matches
                VisitorAt::Dropping(at) ==> at.wf() && at.accepts(self.word.answer(at.asks())))
    }

    /// The number of borrows: one for each visitor, and one for the owner while it has its own.
    pub open spec fn borrows(self) -> nat {
        self.visitors.dom().len() + if self.owner.counts() {
            1nat
        } else {
            0
        }
    }

    /// Somebody is about to publish the first borrow, or that the last one is gone.
    pub open spec fn changing(self) -> bool {
        ||| self.owner.leaves()
        ||| exists|visitor: int|
            self.visitors.contains_key(visitor) && !(#[trigger] self.visitors[visitor]).counts()
        ||| exists|newcomer: int|
            self.newcomers.contains_key(newcomer) && !is_idle(#[trigger] self.newcomers[newcomer])
    }

    /// The counter is one more than the number of borrows, or zero where there is none; while
    /// the first comes or the last leaves, it is one.
    pub open spec fn counted(self) -> bool {
        if self.changing() {
            self.word.counter == 1
        } else if self.borrows() == 0 {
            self.word.counter == 0
        } else {
            self.word.counter == self.borrows() + 1
        }
    }

    /// Everyone in the system counts, and the counter agrees.
    spec fn settled(self) -> bool {
        &&& forall|visitor: int| #[trigger]
            self.visitors.contains_key(visitor) ==> self.visitors[visitor].counts()
        &&& forall|newcomer: int| #[trigger]
            self.newcomers.contains_key(newcomer) ==> is_idle(self.newcomers[newcomer])
        &&& !self.owner.leaves()
        &&& self.word.counter == (if self.borrows() == 0 {
            0
        } else {
            self.borrows() + 1
        })
        &&& self.word.waker == (self.word.counter != 0)
    }

    /// `visitor` is the last one and about to leave.
    spec fn visitor_leaves(self, visitor: int) -> bool {
        &&& self.visitors.dom() =~= set![visitor]
        &&& !self.visitors[visitor].counts()
        &&& forall|newcomer: int| #[trigger]
            self.newcomers.contains_key(newcomer) ==> is_idle(self.newcomers[newcomer])
        &&& self.word.counter == 1
        &&& self.word.waker == self.visitors[visitor].takes_waker()
        &&& !self.owner.counts()
        &&& !self.owner.leaves()
        &&& self.owner !is Unique
    }

    /// The owner has the last borrow and is about to leave.
    spec fn owner_leaves(self) -> bool {
        &&& self.visitors.dom() =~= Set::<int>::empty()
        &&& forall|newcomer: int| #[trigger]
            self.newcomers.contains_key(newcomer) ==> is_idle(self.newcomers[newcomer])
        &&& self.word.counter == 1
        &&& self.word.waker == self.owner.takes_waker()
        &&& self.owner.leaves()
    }

    /// `newcomer` is the first one and about to come in.
    spec fn newcomer_comes(self, newcomer: int) -> bool {
        &&& self.visitors.dom() =~= Set::<int>::empty()
        &&& self.newcomers.contains_key(newcomer)
        &&& self.newcomers[newcomer] is WriteNoop || self.newcomers[newcomer] is Store
        &&& forall|other: int| #[trigger]
            self.newcomers.contains_key(other) && other != newcomer ==> is_idle(
                self.newcomers[other],
            )
        &&& self.word.counter == 1
        &&& self.word.waker == self.newcomers[newcomer] is Store
        &&& !self.owner.counts()
        &&& !self.owner.leaves()
        &&& self.owner !is Unique
    }

    /// What every step keeps.
    spec fn inv(self) -> bool {
        &&& self.visitors.dom().finite()
        &&& forall|visitor: int| #[trigger]
            self.visitors.contains_key(visitor) ==> !self.newcomers.contains_key(visitor) && (
            self.visitors[visitor] matches VisitorAt::Dropping(at) ==> at.wf() && at !is Done)
        &&& forall|newcomer: int| #[trigger]
            self.newcomers.contains_key(newcomer) ==> self.newcomers[newcomer].wf()
                && self.newcomers[newcomer] !is Done
        &&& self.owner matches OwnerAt::Polling(at) ==> at.wf() && at !is Done
        &&& self.owner is Unique ==> self.visitors.dom() =~= Set::<int>::empty()
        &&& self.visitors.dom().len() + 2 < usize::MAX
        &&& {
            ||| self.settled()
            ||| self.owner_leaves()
            ||| exists|visitor: int| #[trigger] self.visitor_leaves(visitor)
            ||| exists|newcomer: int| #[trigger] self.newcomer_comes(newcomer)
        }
    }

    /// A system in which a visitor has its borrow is settled.
    proof fn lemma_settled(self, visitor: int)
        requires
            self.inv(),
            self.visitors.contains_key(visitor),
            self.visitors[visitor].counts(),
        ensures
            self.settled(),
            self.visitors.dom().len() >= 1,
            self.word.counter >= 2,
    {
        assert(self.visitors.dom().contains(visitor));
        if self.visitors.dom().len() == 0 {
            self.visitors.dom().lemma_len0_is_empty();
        }
    }

    /// Every step of the owner keeps the invariant.
    proof fn lemma_inv_owner(self, step: Step)
        requires
            self.inv(),
            self.can(step),
            step is Lend || step is Yield || step is BeginPoll || step is Poll,
        ensures
            self.taken(step).inv(),
    {
        let next = self.taken(step);
        if step is Lend {
            assert(next.settled());
        } else if exists|visitor: int| #[trigger] self.visitor_leaves(visitor) {
            let visitor = choose|visitor: int| #[trigger] self.visitor_leaves(visitor);
            assert(next.visitor_leaves(visitor));
        } else if exists|newcomer: int| #[trigger] self.newcomer_comes(newcomer) {
            let newcomer = choose|newcomer: int| #[trigger] self.newcomer_comes(newcomer);
            assert(next.newcomer_comes(newcomer));
        } else if self.owner_leaves() {
            assert(next.owner_leaves() || next.settled());
        } else {
            if self.visitors.dom().len() == 0 {
                self.visitors.dom().lemma_len0_is_empty();
            }
            assert(next.settled() || next.owner_leaves());
        }
    }

    /// Every step of a visitor that keeps its borrow keeps the invariant.
    proof fn lemma_inv_visitor(self, step: Step, visitor: int)
        requires
            self.inv(),
            self.can(step),
            match step {
                Step::Clone { visitor: v, .. } => v == visitor,
                Step::BeginDrop { visitor: v } => v == visitor,
                _ => false,
            },
        ensures
            self.taken(step).inv(),
    {
        self.lemma_settled(visitor);
        assert(self.taken(step).settled());
    }

    /// Every step of a newcomer keeps the invariant.
    proof fn lemma_inv_newcomer(self, step: Step, newcomer: int)
        requires
            self.inv(),
            self.can(step),
            match step {
                Step::BeginEnter { newcomer: n } => n == newcomer,
                Step::Enter { newcomer: n } => n == newcomer,
                _ => false,
            },
        ensures
            self.taken(step).inv(),
    {
        let next = self.taken(step);
        if self.settled() {
            if self.visitors.dom().len() == 0 {
                self.visitors.dom().lemma_len0_is_empty();
            }
            if next.newcomers.contains_key(newcomer) && next.newcomers[newcomer] is WriteNoop {
                assert(next.newcomer_comes(newcomer));
            } else {
                assert(next.settled());
            }
        } else if self.owner_leaves() {
            assert(next.owner_leaves());
        } else if exists|visitor: int| #[trigger] self.visitor_leaves(visitor) {
            let visitor = choose|visitor: int| #[trigger] self.visitor_leaves(visitor);
            assert(next.visitor_leaves(visitor));
        } else {
            let first = choose|first: int| #[trigger] self.newcomer_comes(first);
            if first == newcomer && self.newcomers[newcomer] is Store {
                assert(next.settled());
            } else {
                assert(next.newcomer_comes(first));
            }
        }
    }

    /// Every step of a visitor that gives its borrow back keeps the invariant.
    proof fn lemma_inv_drop(self, visitor: int)
        requires
            self.inv(),
            self.can(Step::Drop { visitor }),
        ensures
            self.taken(Step::Drop { visitor }).inv(),
    {
        let next = self.taken(Step::Drop { visitor });
        match self.visitors[visitor]->Dropping_0 {
            Decrement::Exchange { seen } if seen == 2 && self.word.counter == 2 => {
                // There is no other borrow.
                self.lemma_settled(visitor);
                Set::lemma_is_singleton(self.visitors.dom());
                assert(next.visitor_leaves(visitor));
            },
            Decrement::Load | Decrement::Exchange { .. } => {
                self.lemma_settled(visitor);
                assert(next.settled());
            },
            Decrement::TakeWaker => {
                assert(self.visitor_leaves(visitor));
                assert(next.visitor_leaves(visitor));
            },
            _ => {
                assert(self.visitor_leaves(visitor));
                assert(next.settled());
            },
        }
    }

    /// Every step keeps the invariant.
    proof fn lemma_inv_step(self, step: Step)
        requires
            self.inv(),
            self.can(step),
        ensures
            self.taken(step).inv(),
    {
        match step {
            Step::Drop { visitor } => self.lemma_inv_drop(visitor),
            Step::Clone { visitor, .. } => self.lemma_inv_visitor(step, visitor),
            Step::BeginDrop { visitor } => self.lemma_inv_visitor(step, visitor),
            Step::BeginEnter { newcomer } => self.lemma_inv_newcomer(step, newcomer),
            Step::Enter { newcomer } => self.lemma_inv_newcomer(step, newcomer),
            _ => self.lemma_inv_owner(step),
        }
    }

    /// What the invariant is for.
    proof fn lemma_inv_safe(self)
        requires
            self.inv(),
        ensures
            self.safe(),
            self.counted(),
    {
        assert forall|visitor: int|
            self.visitors.contains_key(visitor) && (
            #[trigger] self.visitors[visitor]).counts() implies self.word.counter >= 2 by {
            self.lemma_settled(visitor);
        }
    }
}

/// The newcomer has not touched the memory yet.
pub open spec fn is_idle(at: Increment) -> bool {
    at is Load || at is Exchange
}

/// Whether a run of the system goes from each state to the next by the step in between.
pub open spec fn is_run(states: Seq<System>, steps: Seq<Step>) -> bool {
    &&& states.len() == steps.len() + 1
    &&& states[0].initial()
    &&& forall|i: int|
        0 <= i < steps.len() ==> states[i].can(steps[i]) && #[trigger] states[i + 1]
            == states[i].taken(steps[i])
}

proof fn lemma_run_inv(states: Seq<System>, steps: Seq<Step>, i: int)
    requires
        is_run(states, steps),
        0 <= i < states.len(),
    ensures
        states[i].inv(),
    decreases i,
{
    if i == 0 {
        assert(states[0].settled());
    } else {
        lemma_run_inv(states, steps, i - 1);
        states[i - 1].lemma_inv_step(steps[i - 1]);
        assert(states[i - 1 + 1] == states[i - 1].taken(steps[i - 1]));
    }
}

/// However the accesses of the owner and of the visitors fall between each other, the memory is
/// safe at every moment and the counter tells the number of borrows: nobody has the value but
/// those whom the counter entitles to it, the waker slot is worked on by one of them at a time,
/// and it holds a waker whenever one is taken or replaced.
pub proof fn law_every_run_is_safe(states: Seq<System>, steps: Seq<Step>)
    requires
        is_run(states, steps),
    ensures
        forall|i: int| 0 <= i < states.len() ==> (#[trigger] states[i]).safe(),
        forall|i: int| 0 <= i < states.len() ==> (#[trigger] states[i]).counted(),
{
    assert forall|i: int| 0 <= i < states.len() implies (#[trigger] states[i]).safe()
        && states[i].counted() by {
        lemma_run_inv(states, steps, i);
        states[i].lemma_inv_safe();
    }
}

/// No clone and no drop is lost, whatever else goes on meanwhile and whether the owner asks for
/// its value or not: between two moments at which there are visitors and the owner has no borrow
/// of its own, the counter changes by as many as the visitors do.
pub proof fn law_no_clone_or_drop_is_lost(
    states: Seq<System>,
    steps: Seq<Step>,
    from: int,
    to: int,
)
    requires
        is_run(states, steps),
        0 <= from <= to < states.len(),
        states[from].borrows() > 0,
        states[to].borrows() > 0,
        !states[from].changing(),
        !states[to].changing(),
        !states[from].owner.counts(),
        !states[to].owner.counts(),
    ensures
        states[to].word.counter - states[from].word.counter == states[to].visitors.dom().len()
            - states[from].visitors.dom().len(),
{
    law_every_run_is_safe(states, steps);
    assert(states[from].counted() && states[to].counted());
}

/// That whoever takes the step takes the waker out of the slot to wake it.
pub open spec fn takes_waker(state: System, step: Step) -> bool {
    match step {
        Step::Drop { visitor } => state.visitors[visitor].takes_waker(),
        Step::Poll => state.owner.takes_waker(),
        _ => false,
    }
}

/// A waker leaves the slot in one way only: it is taken out to be woken.
pub proof fn law_wakers_are_taken_to_be_woken(
    states: Seq<System>,
    steps: Seq<Step>,
    from: int,
    to: int,
)
    requires
        is_run(states, steps),
        0 <= from <= to < states.len(),
        states[from].word.waker,
        !states[to].word.waker,
    ensures
        exists|i: int| from <= i < to && #[trigger] takes_waker(states[i], steps[i]),
    decreases to,
{
    if from < to {
        let i = to - 1;
        assert(states[i + 1] == states[i].taken(steps[i]));
        lemma_run_inv(states, steps, i);
        if states[i].word.waker {
            assert(takes_waker(states[i], steps[i]));
        } else {
            law_wakers_are_taken_to_be_woken(states, steps, from, i);
        }
    }
}

/// That whoever takes the step fills the waker slot with a waker that does nothing.
pub open spec fn fills_slot(state: System, step: Step) -> bool {
    match step {
        Step::Lend { .. } => true,
        Step::Enter { newcomer } => state.newcomer_fills_slot(newcomer),
        _ => false,
    }
}

/// The waker that is taken is the one that the owner left last: from the step in which the owner
/// replaces what is in the slot to the next in which somebody takes what is in it, nobody else
/// puts anything there, and the slot is never empty.
pub proof fn law_owners_waker_stays_until_taken(
    states: Seq<System>,
    steps: Seq<Step>,
    from: int,
    to: int,
)
    requires
        is_run(states, steps),
        0 <= from < to <= steps.len(),
        steps[from] is Poll,
        states[from].owner.writes_waker(),
        forall|i: int| from < i < to ==> !#[trigger] takes_waker(states[i], steps[i]),
    ensures
        forall|i: int| from < i <= to ==> (#[trigger] states[i]).word.waker,
        forall|i: int| from < i < to ==> !#[trigger] fills_slot(states[i], steps[i]),
{
    assert(states[from + 1] == states[from].taken(steps[from]));
    assert forall|i: int| from < i <= to implies (#[trigger] states[i]).word.waker by {
        if !states[i].word.waker {
            lemma_run_inv(states, steps, from);
            law_wakers_are_taken_to_be_woken(states, steps, from + 1, i);
            let j = choose|j: int| from + 1 <= j < i && #[trigger] takes_waker(states[j], steps[j]);
            assert(!takes_waker(states[j], steps[j]));
        }
    }
    law_every_run_is_safe(states, steps);
    assert forall|i: int| from < i < to implies !#[trigger] fills_slot(states[i], steps[i]) by {
        assert(states[i].safe() && states[i].word.waker);
        assert(states[i + 1] == states[i].taken(steps[i]));
    }
}

/// An owner that asks for its value when no visitor is left, and none is coming in, gets it.
pub proof fn law_owner_gets_the_value(states: Seq<System>, steps: Seq<Step>, i: int)
    requires
        is_run(states, steps),
        0 <= i < states.len(),
        states[i].visitors.dom() =~= Set::<int>::empty(),
        forall|newcomer: int| #[trigger]
            states[i].newcomers.contains_key(newcomer) ==> is_idle(states[i].newcomers[newcomer]),
        states[i].owner == OwnerAt::Polling(SetWaker::Load),
    ensures
        states[i].taken(Step::Poll).owner is Unique,
{
    lemma_run_inv(states, steps, i);
}

/// An owner that has left a waker is not forgotten: once the visitors are gone, and none is
/// coming in, its waker has been taken out of the slot to be woken, and the memory is as new.
pub proof fn law_owner_is_not_forgotten(
    states: Seq<System>,
    steps: Seq<Step>,
    from: int,
    to: int,
)
    requires
        is_run(states, steps),
        0 <= from <= to < states.len(),
        states[from].word.waker,
        states[to].visitors.dom() =~= Set::<int>::empty(),
        forall|newcomer: int| #[trigger]
            states[to].newcomers.contains_key(newcomer) ==> is_idle(
                states[to].newcomers[newcomer],
            ),
        !states[to].owner.counts(),
        !states[to].owner.leaves(),
    ensures
        states[to].word == (Word { counter: 0, waker: false }),
        exists|i: int| from <= i < to && #[trigger] takes_waker(states[i], steps[i]),
{
    lemma_run_inv(states, steps, to);
    law_wakers_are_taken_to_be_woken(states, steps, from, to);
}

/// An upgrade finds out whether a reference is the only one: the access that it makes succeeds
/// if and only if there is no other visitor and the owner is not at work on the waker slot, and
/// changes nothing either way.
pub proof fn law_upgrade_finds_the_sole_visitor(
    states: Seq<System>,
    steps: Seq<Step>,
    i: int,
    visitor: int,
)
    requires
        is_run(states, steps),
        0 <= i < states.len(),
        states[i].visitors.contains_key(visitor),
        states[i].visitors[visitor].counts(),
    ensures
        states[i].word.answer(crate::reference::sole_borrow_check()) == Reply::Exchanged(Ok(2))
            <==> states[i].visitors.dom() =~= set![visitor] && !states[i].owner.counts(),
        states[i].word.performed(crate::reference::sole_borrow_check()) == states[i].word,
{
    let state = states[i];
    lemma_run_inv(states, steps, i);
    state.lemma_settled(visitor);
    if state.visitors.dom().len() == 1 {
        Set::lemma_is_singleton(state.visitors.dom());
    }
}

/// Whoever is the only visitor stays so for as long as it keeps its borrow and nobody takes
/// another one.
pub proof fn law_sole_visitor_stays_sole(
    states: Seq<System>,
    steps: Seq<Step>,
    from: int,
    to: int,
    visitor: int,
)
    requires
        is_run(states, steps),
        0 <= from <= to < states.len(),
        states[from].visitors.dom() =~= set![visitor],
        forall|i: int| from <= i < to ==> (#[trigger] states[i]).visitors[visitor] is Held,
        forall|i: int|
            from <= i < to ==> !(#[trigger] steps[i] is Clone) && entered(states[i], steps[i])
                is None,
    ensures
        states[to].visitors.dom() =~= set![visitor],
    decreases to,
{
    if from < to {
        law_sole_visitor_stays_sole(states, steps, from, to - 1, visitor);
        lemma_run_inv(states, steps, to - 1);
        assert(!(steps[to - 1] is Clone));
        assert(states[to - 1].visitors[visitor] is Held);
        assert(states[to - 1 + 1] == states[to - 1].taken(steps[to - 1]));
    }
}

/// The visitor whose drop ends in the step, with what the drop returns.
pub open spec fn returned(state: System, step: Step) -> Option<(int, usize)> {
    match step {
        Step::Drop { visitor } => match state.visitors[visitor] {
            VisitorAt::Dropping(at) => match at.after(state.word.answer(at.asks())) {
                Decrement::Done { previous } => Some((visitor, previous)),
                _ => None,
            },
            _ => None,
        },
        _ => None,
    }
}

/// The visitors whose drops end in the steps from `from` to `to`, with what the drops return.
pub open spec fn all_returned(states: Seq<System>, steps: Seq<Step>, from: int, to: int) -> Seq<
    (int, usize),
>
    decreases to - from,
{
    if to <= from {
        Seq::empty()
    } else {
        let before = all_returned(states, steps, from, to - 1);
        match returned(states[to - 1], steps[to - 1]) {
            Some(drop) => before.push(drop),
            None => before,
        }
    }
}

/// The visitors that take the waker out of the slot in the steps from `from` to `to`.
pub open spec fn all_takers(states: Seq<System>, steps: Seq<Step>, from: int, to: int) -> Seq<int>
    decreases to - from,
{
    if to <= from {
        Seq::empty()
    } else {
        let before = all_takers(states, steps, from, to - 1);
        match steps[to - 1] {
            Step::Drop { visitor } if takes_waker(states[to - 1], steps[to - 1]) => before.push(
                visitor,
            ),
            _ => before,
        }
    }
}

/// From `from` to `to` the visitors only drop their borrows, while the owner has none.
pub open spec fn only_drops(states: Seq<System>, steps: Seq<Step>, from: int, to: int) -> bool {
    &&& is_run(states, steps)
    &&& 0 <= from <= to < states.len()
    &&& states[from].visitors.dom().len() >= 1
    &&& forall|visitor: int| #[trigger]
        states[from].visitors.contains_key(visitor) ==> states[from].visitors[visitor].counts()
    &&& !states[from].owner.counts()
    &&& forall|i: int| from <= i < to ==> #[trigger] steps[i] is BeginDrop || steps[i] is Drop
}

/// How far the drops have come.
spec fn drops_inv(states: Seq<System>, steps: Seq<Step>, from: int, to: int) -> bool {
    let visitors = states[to].visitors;
    let drops = all_returned(states, steps, from, to);
    let takers = all_takers(states, steps, from, to);
    let count = states[from].visitors.dom().len();
    &&& visitors.dom().len() + drops.len() == count
    &&& states[to].owner == states[from].owner
    &&& states[to].newcomers == states[from].newcomers
    &&& visitors.dom().subset_of(states[from].visitors.dom())
    &&& forall|j: int|
        #![trigger drops[j]]
        0 <= j < drops.len() ==> drops[j].1 == count + 1 - j
            && states[from].visitors.contains_key(drops[j].0) && !visitors.contains_key(
            drops[j].0,
        )
    &&& forall|j: int, k: int|
        #![trigger drops[j], drops[k]]
        0 <= j < k < drops.len() ==> drops[j].0 != drops[k].0
    &&& forall|visitor: int| #[trigger]
        visitors.contains_key(visitor) ==> takers == (if visitors[visitor] == VisitorAt::Dropping(
            Decrement::Store,
        ) {
            seq![visitor]
        } else {
            Seq::empty()
        })
    &&& visitors.dom().len() == 0 ==> takers == seq![drops.last().0]
}

proof fn lemma_drops(states: Seq<System>, steps: Seq<Step>, from: int, to: int)
    requires
        only_drops(states, steps, from, to),
    ensures
        drops_inv(states, steps, from, to),
    decreases to,
{
    lemma_run_inv(states, steps, to);
    if from < to {
        lemma_drops(states, steps, from, to - 1);
        lemma_run_inv(states, steps, to - 1);
        let state = states[to - 1];
        let step = steps[to - 1];
        assert(step is BeginDrop || step is Drop);
        assert(states[to - 1 + 1] == state.taken(step));
        match step {
            Step::BeginDrop { visitor } => {
                state.lemma_settled(visitor);
                assert(states[to].visitors.dom() =~= state.visitors.dom());
            },
            Step::Drop { visitor } => {
                if state.visitors[visitor].counts() {
                    state.lemma_settled(visitor);
                } else {
                    assert(state.visitor_leaves(visitor));
                }
                if returned(state, step) is None {
                    assert(states[to].visitors.dom() =~= state.visitors.dom());
                }
            },
            _ => {},
        }
    }
}

/// However the drops of the visitors fall between each other, each of them returns a number of
/// its own: the first to end returns one more than there were visitors, and each that follows
/// returns one less. Only the one that returns two takes the waker to wake it.
pub proof fn law_concurrent_drops_count_down(
    states: Seq<System>,
    steps: Seq<Step>,
    from: int,
    to: int,
)
    requires
        only_drops(states, steps, from, to),
    ensures
        ({
            let count = states[from].visitors.dom().len();
            let drops = all_returned(states, steps, from, to);
            let takers = all_takers(states, steps, from, to);
            &&& drops.len() + states[to].visitors.dom().len() == count
            &&& forall|j: int|
                #![trigger drops[j]]
                0 <= j < drops.len() ==> drops[j].1 == count + 1 - j
                    && states[from].visitors.contains_key(drops[j].0)
            &&& forall|j: int, k: int|
                #![trigger drops[j], drops[k]]
                0 <= j < k < drops.len() ==> drops[j].0 != drops[k].0
            &&& takers.len() <= 1
            &&& drops.len() == count ==> takers == seq![drops.last().0] && drops.last().1 == 2
                && states[to].word == (Word { counter: 0, waker: false })
        }),
{
    lemma_drops(states, steps, from, to);
    lemma_run_inv(states, steps, from);
    lemma_run_inv(states, steps, to);
    states[from].lemma_settled(states[from].visitors.dom().choose());
    let visitors = states[to].visitors.dom();
    if visitors.len() == 0 {
        visitors.lemma_len0_is_empty();
    } else {
        let visitor = visitors.choose();
        assert(states[to].visitors.contains_key(visitor));
    }
}

/// The newcomer that has come in by the step, with the count that it found.
pub open spec fn entered(state: System, step: Step) -> Option<(int, usize)> {
    match step {
        Step::Enter { newcomer } => {
            let at = state.newcomers[newcomer];
            match at.after(state.word.answer(at.asks())) {
                Increment::Done { previous } => Some((newcomer, previous)),
                _ => None,
            }
        },
        _ => None,
    }
}

/// The newcomers that have come in by the steps from `from` to `to`, with the counts that they
/// found.
pub open spec fn all_entered(states: Seq<System>, steps: Seq<Step>, from: int, to: int) -> Seq<
    (int, usize),
>
    decreases to - from,
{
    if to <= from {
        Seq::empty()
    } else {
        let before = all_entered(states, steps, from, to - 1);
        match entered(states[to - 1], steps[to - 1]) {
            Some(entry) => before.push(entry),
            None => before,
        }
    }
}

/// The newcomers that fill the waker slot in the steps from `from` to `to`.
pub open spec fn all_fillers(states: Seq<System>, steps: Seq<Step>, from: int, to: int) -> Seq<int>
    decreases to - from,
{
    if to <= from {
        Seq::empty()
    } else {
        let before = all_fillers(states, steps, from, to - 1);
        match steps[to - 1] {
            Step::Enter { newcomer } if states[to - 1].newcomer_fills_slot(newcomer) => before.push(
                newcomer,
            ),
            _ => before,
        }
    }
}

/// From `from` to `to` newcomers come in, where nobody was, and nobody else does anything.
pub open spec fn only_entries(states: Seq<System>, steps: Seq<Step>, from: int, to: int) -> bool {
    &&& is_run(states, steps)
    &&& 0 <= from <= to < states.len()
    &&& states[from].word.counter == 0
    &&& forall|i: int| from <= i < to ==> #[trigger] steps[i] is BeginEnter || steps[i] is Enter
}

/// How far the newcomers have come.
spec fn entries_inv(states: Seq<System>, steps: Seq<Step>, from: int, to: int) -> bool {
    let state = states[to];
    let entries = all_entered(states, steps, from, to);
    let fillers = all_fillers(states, steps, from, to);
    &&& state.visitors.dom().len() == entries.len()
    &&& !state.owner.counts()
    &&& !state.owner.leaves()
    &&& forall|visitor: int| #[trigger]
        state.visitors.contains_key(visitor) ==> state.visitors[visitor].counts()
    &&& forall|j: int|
        #![trigger entries[j]]
        0 <= j < entries.len() ==> entries[j].1 == (if j == 0 {
            0
        } else {
            j + 1
        }) && state.visitors.contains_key(entries[j].0)
    &&& forall|j: int, k: int|
        #![trigger entries[j], entries[k]]
        0 <= j < k < entries.len() ==> entries[j].0 != entries[k].0
    &&& entries.len() > 0 ==> fillers == seq![entries[0].0]
    &&& entries.len() == 0 ==> forall|newcomer: int| #[trigger]
        state.newcomer_comes(newcomer) ==> fillers == (if state.newcomers[newcomer] is Store {
            seq![newcomer]
        } else {
            Seq::empty()
        })
    &&& entries.len() == 0 && state.word.counter == 0 ==> fillers == Seq::<int>::empty()
}

proof fn lemma_entries(states: Seq<System>, steps: Seq<Step>, from: int, to: int)
    requires
        only_entries(states, steps, from, to),
    ensures
        entries_inv(states, steps, from, to),
    decreases to,
{
    lemma_run_inv(states, steps, to);
    if states[to].visitors.dom().len() == 0 {
        states[to].visitors.dom().lemma_len0_is_empty();
    }
    if from < to {
        lemma_entries(states, steps, from, to - 1);
        lemma_run_inv(states, steps, to - 1);
        let state = states[to - 1];
        let step = steps[to - 1];
        assert(step is BeginEnter || step is Enter);
        assert(states[to - 1 + 1] == state.taken(step));
        if state.visitors.dom().len() == 0 {
            state.visitors.dom().lemma_len0_is_empty();
        }
    }
}

/// However the first borrows fall between each other, nobody's is lost: the newcomers find the
/// counts zero, two, three and so on, each of them its own, and the one that finds zero is the
/// only one to fill the waker slot.
pub proof fn law_concurrent_newcomers_count_up(
    states: Seq<System>,
    steps: Seq<Step>,
    from: int,
    to: int,
)
    requires
        only_entries(states, steps, from, to),
    ensures
        ({
            let entries = all_entered(states, steps, from, to);
            let fillers = all_fillers(states, steps, from, to);
            &&& states[to].visitors.dom().len() == entries.len()
            &&& forall|j: int|
                #![trigger entries[j]]
                0 <= j < entries.len() ==> entries[j].1 == (if j == 0 {
                    0
                } else {
                    j + 1
                }) && states[to].visitors.contains_key(entries[j].0)
            &&& forall|j: int, k: int|
                #![trigger entries[j], entries[k]]
                0 <= j < k < entries.len() ==> entries[j].0 != entries[k].0
            &&& entries.len() > 0 ==> fillers == seq![entries[0].0] && states[to].word.counter
                == entries.len() + 1 && states[to].word.waker
        }),
{
    lemma_entries(states, steps, from, to);
    lemma_run_inv(states, steps, to);
    let entries = all_entered(states, steps, from, to);
    if entries.len() > 0 {
        states[to].lemma_settled(entries[0].0);
    }
}

/// That the owner leaves its waker in the slot in the step.
pub open spec fn leaves_waker(state: System, step: Step) -> bool {
    step is Poll && state.owner is Polling && state.owner->Polling_0.asks() is WriteWaker
}

/// That no poll of the owner starts in the steps from `from` to `to`.
pub open spec fn within_one_poll(steps: Seq<Step>, from: int, to: int) -> bool {
    forall|i: int| from <= i < to ==> !(#[trigger] steps[i] is BeginPoll)
}

/// An owner that gives its borrow back has left its waker in the same poll.
proof fn lemma_release_follows_the_waker(states: Seq<System>, steps: Seq<Step>, now: int)
    requires
        is_run(states, steps),
        0 <= now < states.len(),
        states[now].owner matches OwnerAt::Polling(at) && at is Release,
    ensures
        exists|i: int|
            0 <= i < now && #[trigger] leaves_waker(states[i], steps[i]) && within_one_poll(
                steps,
                i,
                now,
            ),
    decreases now,
{
    if now > 0 {
        let (state, step) = (states[now - 1], steps[now - 1]);
        assert(states[now - 1 + 1] == state.taken(step));
        lemma_run_inv(states, steps, now - 1);
        if leaves_waker(state, step) {
            assert(within_one_poll(steps, now - 1, now));
        } else {
            lemma_release_follows_the_waker(states, steps, now - 1);
            let i = choose|i: int|
                0 <= i < now - 1 && #[trigger] leaves_waker(states[i], steps[i])
                    && within_one_poll(steps, i, now - 1);
            assert(within_one_poll(steps, i, now));
        }
    }
}

/// An owner that is told to wait has left its waker: whenever a poll of the owner ends with the
/// owner waiting, the owner has put its waker in the slot in that same poll, and since then it is
/// still there or somebody has taken it to wake it.
pub proof fn law_waiting_owner_has_left_its_waker(states: Seq<System>, steps: Seq<Step>, to: int)
    requires
        is_run(states, steps),
        0 <= to < steps.len(),
        steps[to] is Poll,
        states[to + 1].owner is Waiting,
    ensures
        exists|i: int|
            {
                &&& 0 <= i < to
                &&& #[trigger] leaves_waker(states[i], steps[i])
                &&& within_one_poll(steps, i, to + 1)
                &&& states[to + 1].word.waker || exists|j: int|
                    i < j <= to && #[trigger] takes_waker(states[j], steps[j])
            },
{
    assert(states[to + 1] == states[to].taken(steps[to]));
    lemma_run_inv(states, steps, to);
    lemma_release_follows_the_waker(states, steps, to);
    let i = choose|i: int|
        0 <= i < to && #[trigger] leaves_waker(states[i], steps[i]) && within_one_poll(
            steps,
            i,
            to,
        );
    assert(within_one_poll(steps, i, to + 1));
    lemma_run_inv(states, steps, i);
    if forall|j: int| i < j <= to ==> !#[trigger] takes_waker(states[j], steps[j]) {
        law_owners_waker_stays_until_taken(states, steps, i, to + 1);
        assert(states[to + 1].word.waker);
    }
}

impl System {
    /// The system after somebody has taken a step up to `count` times, with nobody else at work.
    pub open spec fn left_alone(self, step: Step, count: nat) -> System
        decreases count,
    {
        if count == 0 || !self.can(step) {
            self
        } else {
            self.taken(step).left_alone(step, (count - 1) as nat)
        }
    }
}

/// How many steps an owner that is left alone still has to take.
spec fn owner_steps(state: System) -> nat {
    match state.owner {
        OwnerAt::Polling(at) => match at {
            SetWaker::Exchange { seen } => if seen == state.word.counter {
                6nat
            } else {
                8
            },
            SetWaker::Load => 7,
            SetWaker::WriteWaker { .. } => 5,
            SetWaker::Release(release) => match release {
                Decrement::Exchange { seen } => if seen == state.word.counter {
                    3nat
                } else {
                    5
                },
                Decrement::Load => 4,
                Decrement::TakeWaker => 2,
                _ => 1,
            },
            SetWaker::Done { .. } => 0,
        },
        _ => 0,
    }
}

proof fn lemma_owner_is_told(state: System, count: nat)
    requires
        state.inv(),
        state.changing() ==> state.owner.leaves(),
        owner_steps(state) <= count,
    ensures
        state.left_alone(Step::Poll, count).owner !is Polling,
    decreases count,
{
    if state.owner is Polling {
        let next = state.taken(Step::Poll);
        state.lemma_inv_step(Step::Poll);
        lemma_owner_is_told(next, (count - 1) as nat);
    }
}

/// A poll of the owner ends: whatever it has seen so far, once it is left alone it is told to
/// wait or gets the value, unless somebody else is about to publish the first borrow, or that the
/// last one is gone.
pub proof fn law_owner_is_told(states: Seq<System>, steps: Seq<Step>, i: int)
    requires
        is_run(states, steps),
        0 <= i < states.len(),
        states[i].owner is Polling,
        states[i].changing() ==> states[i].owner.leaves(),
    ensures
        states[i].left_alone(Step::Poll, 8).owner !is Polling,
{
    lemma_run_inv(states, steps, i);
    lemma_owner_is_told(states[i], 8);
}

/// A drop ends: whatever it has seen so far, a visitor that is left alone is gone.
pub proof fn law_visitor_goes(states: Seq<System>, steps: Seq<Step>, i: int, visitor: int)
    requires
        is_run(states, steps),
        0 <= i < states.len(),
        states[i].visitors.contains_key(visitor),
        states[i].visitors[visitor] is Dropping,
    ensures
        !states[i].left_alone(Step::Drop { visitor }, 5).visitors.contains_key(visitor),
{
    lemma_run_inv(states, steps, i);
    if states[i].visitors[visitor].counts() {
        states[i].lemma_settled(visitor);
    }
    reveal_with_fuel(System::left_alone, 6);
}

/// A newcomer comes in: whatever it has seen so far, once it is left alone it has a borrow, unless
/// somebody else is about to publish the first borrow, or that the last one is gone.
pub proof fn law_newcomer_comes_in(states: Seq<System>, steps: Seq<Step>, i: int, newcomer: int)
    requires
        is_run(states, steps),
        0 <= i < states.len(),
        states[i].newcomers.contains_key(newcomer),
        states[i].changing() ==> !is_idle(states[i].newcomers[newcomer]),
        states[i].word.counter < usize::MAX - 2,
        states[i].owner !is Unique,
    ensures
        states[i].left_alone(Step::Enter { newcomer }, 5).visitors.contains_key(newcomer),
{
    lemma_run_inv(states, steps, i);
    reveal_with_fuel(System::left_alone, 6);
}

} // verus!
