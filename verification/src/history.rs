//! What becomes of a contract over the course of its life.
use crate::contract::{ContractView, WakerSlot};
use std::task::Waker;
use vstd::prelude::*;

verus! {

/// What can happen to a contract.
pub enum Event<T> {
    /// The owner lends the value out to one visitor, and leaves a waker that does nothing.
    Lend(Waker),
    /// The owner asks for the value and leaves its waker if it has to wait.
    Await(Waker),
    /// A visitor is cloned.
    Clone,
    /// The value is written: by the owner where there is no borrow, otherwise by a visitor.
    Write(T),
    /// A visitor gives its borrow back.
    Drop,
}

/// Whether an event can happen to a contract.
pub open spec fn can_happen<T>(contract: ContractView<T>, event: Event<T>) -> bool {
    match event {
        Event::Lend(_) => contract.counter == 0,
        Event::Await(_) => contract.counter != 1 && contract.counter < usize::MAX,
        Event::Clone => 2 <= contract.counter < usize::MAX,
        Event::Write(_) => contract.counter != 1,
        Event::Drop => contract.counter >= 2,
    }
}

/// The contract after an event.
pub open spec fn after_event<T>(contract: ContractView<T>, event: Event<T>) -> ContractView<T> {
    match event {
        Event::Lend(noop) => contract.lent(noop),
        Event::Await(waker) => contract.awaited(waker),
        Event::Clone => contract.incremented(),
        Event::Write(val) => ContractView { val, ..contract },
        Event::Drop => contract.decremented(),
    }
}

/// The contract after some events.
pub open spec fn after_events<T>(contract: ContractView<T>, events: Seq<Event<T>>) -> ContractView<
    T,
>
    decreases events.len(),
{
    if events.len() == 0 {
        contract
    } else {
        after_event(after_events(contract, events.drop_last()), events.last())
    }
}

/// Whether the events can happen to the contract one after the other.
pub open spec fn can_all_happen<T>(contract: ContractView<T>, events: Seq<Event<T>>) -> bool
    decreases events.len(),
{
    events.len() > 0 ==> {
        &&& can_all_happen(contract, events.drop_last())
        &&& can_happen(after_events(contract, events.drop_last()), events.last())
    }
}

/// The borrows that the events add, less those that they give back.
pub open spec fn borrows_gained<T>(events: Seq<Event<T>>) -> int
    decreases events.len(),
{
    if events.len() == 0 {
        0
    } else {
        borrows_gained(events.drop_last()) + match events.last() {
            Event::Lend(_) | Event::Clone => 1int,
            Event::Drop => -1,
            _ => 0,
        }
    }
}

/// The value that was written last, or `val` where none was.
pub open spec fn last_written<T>(val: T, events: Seq<Event<T>>) -> T
    decreases events.len(),
{
    if events.len() == 0 {
        val
    } else {
        match events.last() {
            Event::Write(written) => written,
            _ => last_written(val, events.drop_last()),
        }
    }
}

/// The waker that the owner left last since it lent the value out, or what is in the slot
/// `waker` where it left none.
pub open spec fn last_waker<T>(waker: WakerSlot, events: Seq<Event<T>>) -> WakerSlot
    decreases events.len(),
{
    if events.len() == 0 {
        waker
    } else {
        match events.last() {
            Event::Lend(noop) => WakerSlot::Noop(noop),
            Event::Await(left) => WakerSlot::Task(left),
            _ => last_waker(waker, events.drop_last()),
        }
    }
}

/// Whatever happens to a contract, it stays well-formed and itself, its counter stands for
/// the borrows that were taken and not given back, its value is the one written last, and no
/// waker is forgotten.
pub proof fn law_counter_counts_the_borrows<T>(contract: ContractView<T>, events: Seq<Event<T>>)
    requires
        contract.wf(),
        contract.counter != 1,
        can_all_happen(contract, events),
    ensures
        after_events(contract, events).wf(),
        after_events(contract, events).counter != 1,
        after_events(contract, events).id == contract.id,
        after_events(contract, events).borrows() == contract.borrows() + borrows_gained(events),
        after_events(contract, events).val == last_written(contract.val, events),
        after_events(contract, events).forgotten == contract.forgotten,
    decreases events.len(),
{
    if events.len() > 0 {
        law_counter_counts_the_borrows(contract, events.drop_last());
        assert(contract.forgotten + Seq::<Waker>::empty() =~= contract.forgotten);
    }
}

/// Memory is handed on to its owner after usage: the owner finds it free, and does not wait, if
/// and only if every borrow that was taken has been given back; and then it holds the value
/// that was written last.
pub proof fn law_memory_is_handed_on<T>(
    contract: ContractView<T>,
    events: Seq<Event<T>>,
    waker: Waker,
)
    requires
        contract.wf(),
        contract.counter == 0,
        can_all_happen(contract, events),
    ensures
        after_events(contract, events).counter == 0 <==> borrows_gained(events) == 0,
        borrows_gained(events) == 0 ==> after_events(contract, events).awaited(waker)
            == (ContractView {
            val: last_written(contract.val, events),
            woken: after_events(contract, events).woken,
            ..contract
        }),
        borrows_gained(events) != 0 ==> after_events(contract, events).awaited(waker).waker
            == WakerSlot::Task(waker),
{
    law_counter_counts_the_borrows(contract, events);
}

/// While there is a borrow, the slot holds the waker that the owner left last.
proof fn lemma_slot_holds_the_last_waker<T>(contract: ContractView<T>, events: Seq<Event<T>>)
    requires
        contract.wf(),
        contract.counter != 1,
        can_all_happen(contract, events),
    ensures
        after_events(contract, events).counter >= 2 ==> after_events(contract, events).waker
            == last_waker(contract.waker, events),
    decreases events.len(),
{
    if events.len() > 0 {
        let before = events.drop_last();
        lemma_slot_holds_the_last_waker(contract, before);
        law_counter_counts_the_borrows(contract, before);
    }
}

/// The owner is woken, once, by the drop that ends the last borrow, with the waker that it left
/// last; and nothing else that happens wakes anyone.
pub proof fn law_last_drop_wakes_the_owner<T>(
    contract: ContractView<T>,
    events: Seq<Event<T>>,
    event: Event<T>,
)
    requires
        contract.wf(),
        contract.counter != 1,
        can_all_happen(contract, events.push(event)),
    ensures
        ({
            let before = after_events(contract, events);
            let after = after_events(contract, events.push(event));
            let woken = last_waker(contract.waker, events).held();
            if event is Drop && after.counter == 0 {
                &&& woken.len() == 1
                &&& after.woken == before.woken + woken
                &&& after.waker is Unset
            } else {
                after.woken == before.woken
            }
        }),
{
    assert(events.push(event).drop_last() =~= events);
    lemma_slot_holds_the_last_waker(contract, events);
    law_counter_counts_the_borrows(contract, events);
}

/// A drop undoes a clone, and wakes nobody.
pub proof fn law_drop_undoes_clone<T>(contract: ContractView<T>)
    requires
        contract.wf(),
        2 <= contract.counter < usize::MAX,
    ensures
        contract.incremented().decremented() == contract,
{
}

/// A drop undoes the lending to one visitor, and wakes the waker that does nothing.
pub proof fn law_drop_undoes_lending<T>(contract: ContractView<T>, noop: Waker)
    requires
        contract.wf(),
        contract.counter == 0,
    ensures
        contract.lent(noop).decremented() == (ContractView {
            woken: contract.woken.push(noop),
            ..contract
        }),
{
    assert(contract.woken + seq![noop] =~= contract.woken.push(noop));
}

/// The contract after `count` drops.
pub open spec fn after_drops<T>(contract: ContractView<T>, count: nat) -> ContractView<T>
    decreases count,
{
    if count == 0 {
        contract
    } else {
        after_drops(contract, (count - 1) as nat).decremented()
    }
}

/// Visitors that are dropped one by one lower the count by one each and leave the value alone.
/// All but the last wake nobody; the last wakes what the owner has left, once, and leaves the
/// contract free.
pub proof fn law_visitors_drop_one_by_one<T>(contract: ContractView<T>, count: nat)
    requires
        contract.wf(),
        contract.counter >= 2,
        count <= contract.borrows(),
    ensures
        count < contract.borrows() ==> after_drops(contract, count) == (ContractView {
            counter: (contract.counter - count) as usize,
            ..contract
        }),
        count == contract.borrows() ==> after_drops(contract, count) == (ContractView {
            counter: 0,
            waker: WakerSlot::Unset,
            woken: contract.woken + contract.waker.held(),
            ..contract
        }),
        contract.waker.held().len() == 1,
    decreases count,
{
    if count > 0 {
        law_visitors_drop_one_by_one(contract, (count - 1) as nat);
    }
}

/// Lending starts over, whatever the counter was: there is one borrow then, the next drop is the
/// last, and it wakes the waker that came with the lending and no other. A waker that was in the
/// slot is forgotten, not woken.
pub proof fn law_lending_starts_over<T>(contract: ContractView<T>, noop: Waker)
    ensures
        ({
            let lent = contract.lent(noop);
            &&& lent.wf()
            &&& lent.borrows() == 1
            &&& lent.id == contract.id
            &&& lent.val == contract.val
            &&& lent.woken == contract.woken
            &&& lent.decremented().counter == 0
            &&& lent.decremented().woken == contract.woken.push(noop)
            &&& match contract.waker {
                WakerSlot::Unset => lent.forgotten == contract.forgotten,
                WakerSlot::Noop(old) => lent.forgotten == contract.forgotten.push(old),
                WakerSlot::Task(old) => lent.forgotten == contract.forgotten.push(old),
            }
        }),
{
    assert(contract.woken + seq![noop] =~= contract.woken.push(noop));
    assert(contract.forgotten + Seq::<Waker>::empty() =~= contract.forgotten);
    match contract.waker {
        WakerSlot::Unset => {},
        WakerSlot::Noop(old) | WakerSlot::Task(old) => {
            assert(contract.forgotten + seq![old] =~= contract.forgotten.push(old));
        },
    }
}

/// An owner that asks leaves its own waker where there is a borrow, in place of what was there,
/// and changes nothing else; where there is none it changes nothing.
pub proof fn law_asking_leaves_the_waker<T>(contract: ContractView<T>, waker: Waker)
    requires
        contract.wf(),
        contract.counter != 1,
    ensures
        ({
            let asked = contract.awaited(waker);
            &&& asked.wf()
            &&& asked.counter == contract.counter
            &&& asked.val == contract.val
            &&& asked.woken == contract.woken
            &&& asked.forgotten == contract.forgotten
            &&& contract.borrows() > 0 ==> asked.waker.held() == seq![waker]
            &&& contract.borrows() == 0 ==> asked == contract
        }),
{
}

} // verus!
