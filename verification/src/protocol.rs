//! The counter protocol, one indivisible access at a time.
//!
//! A contract guards its value with one counter word and one waker slot. Every
//! operation on them is a short program of atomic accesses. Here each program is
//! a state machine that owns no memory: it says which access comes next
//! (`request`), is told what the access gave (`resume`), and so on until it is
//! done. Whoever owns the memory performs the accesses, alone or among other
//! threads that do the same.
use vstd::prelude::*;

verus! {

/// The memory order of an access to the counter word.
#[derive(Clone, Copy, Debug, PartialEq, Eq, Structural)]
pub enum Order {
    Relaxed,
    Acquire,
    Release,
}

/// One indivisible access to the shared memory of a contract.
#[derive(Clone, Copy, Debug, PartialEq, Eq, Structural)]
pub enum Request {
    /// Reads the counter.
    Load { order: Order },
    /// Writes `new` to the counter if it reads `current`.
    CompareExchange { current: usize, new: usize, success: Order, failure: Order },
    /// Adds to the counter, wrapping around at the end of its range.
    FetchAdd { value: usize, order: Order },
    /// Writes the counter.
    Store { value: usize, order: Order },
    /// Fills the empty waker slot with a waker that does nothing.
    WriteNoop,
    /// Replaces the waker in the slot by the one of the polling task.
    WriteWaker,
    /// Empties the waker slot and wakes what was in it.
    TakeWaker,
}

/// What an access gave.
#[derive(Clone, Copy, Debug, PartialEq, Eq)]
pub enum Reply {
    /// The counter, before any change to it, of a `Load` or a `FetchAdd`.
    Value(usize),
    /// The outcome of a `CompareExchange`: `Ok` if it wrote, with the counter it found.
    Exchanged(Result<usize, usize>),
    /// The access has no result.
    Done,
}

/// The counter word together with the state of the waker slot.
pub struct Word {
    /// The counter.
    pub counter: usize,
    /// Whether there is a waker in the slot.
    pub waker: bool,
}

/// `counter + value`, as an atomic addition computes it.
pub open spec fn wrapping_sum(counter: usize, value: usize) -> usize {
    if counter + value > usize::MAX {
        (counter + value - usize::MAX - 1) as usize
    } else {
        (counter + value) as usize
    }
}

impl Request {
    /// Whether the access is one to the counter word.
    pub open spec fn on_counter(self) -> bool {
        match self {
            Request::WriteNoop | Request::WriteWaker | Request::TakeWaker => false,
            _ => true,
        }
    }
}

impl Word {
    /// The documented relation of the two: there is no waker while the counter is zero, and
    /// there is one while it is two or more. At one, a visitor is at work on the slot.
    pub open spec fn wf(self) -> bool {
        &&& self.counter == 0 ==> !self.waker
        &&& self.counter >= 2 ==> self.waker
    }

    /// The memory after an access.
    pub open spec fn performed(self, request: Request) -> Word {
        match request {
            Request::Load { .. } => self,
            Request::CompareExchange { current, new, .. } => if self.counter == current {
                Word { counter: new, ..self }
            } else {
                self
            },
            Request::FetchAdd { value, .. } => Word {
                counter: wrapping_sum(self.counter, value),
                ..self
            },
            Request::Store { value, .. } => Word { counter: value, ..self },
            Request::WriteNoop => Word { waker: true, ..self },
            Request::WriteWaker => Word { waker: true, ..self },
            Request::TakeWaker => Word { waker: false, ..self },
        }
    }

    /// What an access gives.
    pub open spec fn answer(self, request: Request) -> Reply {
        match request {
            Request::Load { .. } => Reply::Value(self.counter),
            Request::CompareExchange { current, .. } => Reply::Exchanged(
                if self.counter == current {
                    Ok(self.counter)
                } else {
                    Err(self.counter)
                },
            ),
            Request::FetchAdd { .. } => Reply::Value(self.counter),
            _ => Reply::Done,
        }
    }
}

/// The access by which a visitor that keeps its borrow adds another one.
pub open spec fn add_borrow() -> Request {
    Request::FetchAdd { value: 1, order: Order::Relaxed }
}

/// The access by which a visitor that keeps its borrow adds another one.
pub fn add_borrow_request() -> (request: Request)
    ensures
        request == add_borrow(),
{
    Request::FetchAdd { value: 1, order: Order::Relaxed }
}

/// Adds one borrow, from whatever state the contract is in.
///
/// The first borrow passes through a counter of one while it fills the waker slot.
#[derive(Clone, Copy, Debug, PartialEq, Eq, Structural)]
pub enum Increment {
    /// About to read the counter.
    Load,
    /// Read `seen`; about to exchange it.
    Exchange { seen: usize },
    /// Took the counter from zero to one; about to fill the waker slot.
    WriteNoop,
    /// Filled the slot; about to publish the first borrow.
    Store,
    /// Finished; the counter was `previous`.
    Done { previous: usize },
}

impl Increment {
    /// The counter that an exchange starts from leaves room for one more borrow.
    pub open spec fn wf(self) -> bool {
        self matches Increment::Exchange { seen } ==> seen != 1 && seen < usize::MAX
    }

    /// The access that comes next.
    pub open spec fn asks(self) -> Request {
        match self {
            Increment::Load => Request::Load { order: Order::Relaxed },
            Increment::Exchange { seen } => if seen == 0 {
                Request::CompareExchange {
                    current: 0,
                    new: 1,
                    success: Order::Acquire,
                    failure: Order::Relaxed,
                }
            } else {
                Request::CompareExchange {
                    current: seen,
                    new: (seen + 1) as usize,
                    success: Order::Relaxed,
                    failure: Order::Relaxed,
                }
            },
            Increment::WriteNoop => Request::WriteNoop,
            _ => Request::Store { value: 2, order: Order::Release },
        }
    }

    /// Whether `reply` is an answer to the access that comes next, with a counter that leaves
    /// room for one more borrow.
    pub open spec fn accepts(self, reply: Reply) -> bool {
        match self {
            Increment::Load => reply matches Reply::Value(n) && n < usize::MAX,
            Increment::Exchange { .. } => reply is Exchanged,
            Increment::WriteNoop | Increment::Store => reply is Done,
            Increment::Done { .. } => false,
        }
    }

    /// Where the program stands once the access has given `reply`.
    pub open spec fn after(self, reply: Reply) -> Increment {
        match (self, reply) {
            (Increment::Load, Reply::Value(n)) => if n == 1 {
                Increment::Load
            } else {
                Increment::Exchange { seen: n }
            },
            (Increment::Exchange { seen }, Reply::Exchanged(Ok(_))) => if seen == 0 {
                Increment::WriteNoop
            } else {
                Increment::Done { previous: seen }
            },
            (Increment::Exchange { .. }, Reply::Exchanged(Err(_))) => Increment::Load,
            (Increment::WriteNoop, Reply::Done) => Increment::Store,
            (Increment::Store, Reply::Done) => Increment::Done { previous: 0 },
            _ => self,
        }
    }

    /// The access to perform next.
    pub fn request(self) -> (request: Request)
        requires
            self.wf(),
            self !is Done,
        ensures
            request == self.asks(),
    {
        match self {
            Increment::Load => Request::Load { order: Order::Relaxed },
            Increment::Exchange { seen } => {
                if seen == 0 {
                    Request::CompareExchange {
                        current: 0,
                        new: 1,
                        success: Order::Acquire,
                        failure: Order::Relaxed,
                    }
                } else {
                    Request::CompareExchange {
                        current: seen,
                        new: seen + 1,
                        success: Order::Relaxed,
                        failure: Order::Relaxed,
                    }
                }
            },
            Increment::WriteNoop => Request::WriteNoop,
            _ => Request::Store { value: 2, order: Order::Release },
        }
    }

    /// Goes on with what the access gave.
    pub fn resume(self, reply: Reply) -> (next: Increment)
        requires
            self.wf(),
            self.accepts(reply),
        ensures
            next == self.after(reply),
            next.wf(),
    {
        match (self, reply) {
            (Increment::Load, Reply::Value(n)) => {
                if n == 1 {
                    // The slot is being worked on.
                    Increment::Load
                } else {
                    Increment::Exchange { seen: n }
                }
            },
            (Increment::Exchange { seen }, Reply::Exchanged(Ok(_))) => {
                if seen == 0 {
                    Increment::WriteNoop
                } else {
                    Increment::Done { previous: seen }
                }
            },
            (Increment::Exchange { .. }, Reply::Exchanged(Err(_))) => Increment::Load,
            (Increment::WriteNoop, Reply::Done) => Increment::Store,
            (Increment::Store, Reply::Done) => Increment::Done { previous: 0 },
            _ => self,
        }
    }
}

/// Gives one borrow back.
///
/// The last borrow passes through a counter of one while it empties the waker slot.
#[derive(Clone, Copy, Debug, PartialEq, Eq, Structural)]
pub enum Decrement {
    /// About to read the counter.
    Load,
    /// Read `seen`; about to exchange it.
    Exchange { seen: usize },
    /// Took the counter from two to one; about to empty the waker slot and wake the owner.
    TakeWaker,
    /// Emptied the slot; about to publish that no borrow is left.
    Store,
    /// Finished; the counter was `previous`.
    Done { previous: usize },
}

impl Decrement {
    /// The counter that an exchange starts from counts at least one borrow.
    pub open spec fn wf(self) -> bool {
        self matches Decrement::Exchange { seen } ==> seen >= 2
    }

    /// The access that comes next.
    pub open spec fn asks(self) -> Request {
        match self {
            Decrement::Load => Request::Load { order: Order::Relaxed },
            Decrement::Exchange { seen } => if seen == 2 {
                Request::CompareExchange {
                    current: 2,
                    new: 1,
                    success: Order::Acquire,
                    failure: Order::Relaxed,
                }
            } else {
                Request::CompareExchange {
                    current: seen,
                    new: (seen - 1) as usize,
                    success: Order::Release,
                    failure: Order::Relaxed,
                }
            },
            Decrement::TakeWaker => Request::TakeWaker,
            _ => Request::Store { value: 0, order: Order::Release },
        }
    }

    /// Whether `reply` is an answer to the access that comes next, with a counter that there is
    /// a borrow to give back from.
    pub open spec fn accepts(self, reply: Reply) -> bool {
        match self {
            Decrement::Load => reply matches Reply::Value(n) && n > 0,
            Decrement::Exchange { .. } => reply is Exchanged,
            Decrement::TakeWaker | Decrement::Store => reply is Done,
            Decrement::Done { .. } => false,
        }
    }

    /// Where the program stands once the access has given `reply`.
    pub open spec fn after(self, reply: Reply) -> Decrement {
        match (self, reply) {
            (Decrement::Load, Reply::Value(n)) => if n == 1 {
                Decrement::Load
            } else {
                Decrement::Exchange { seen: n }
            },
            (Decrement::Exchange { seen }, Reply::Exchanged(Ok(_))) => if seen == 2 {
                Decrement::TakeWaker
            } else {
                Decrement::Done { previous: seen }
            },
            (Decrement::Exchange { .. }, Reply::Exchanged(Err(_))) => Decrement::Load,
            (Decrement::TakeWaker, Reply::Done) => Decrement::Store,
            (Decrement::Store, Reply::Done) => Decrement::Done { previous: 2 },
            _ => self,
        }
    }

    /// The access to perform next.
    pub fn request(self) -> (request: Request)
        requires
            self.wf(),
            self !is Done,
        ensures
            request == self.asks(),
    {
        match self {
            Decrement::Load => Request::Load { order: Order::Relaxed },
            Decrement::Exchange { seen } => {
                if seen == 2 {
                    Request::CompareExchange {
                        current: 2,
                        new: 1,
                        success: Order::Acquire,
                        failure: Order::Relaxed,
                    }
                } else {
                    Request::CompareExchange {
                        current: seen,
                        new: seen - 1,
                        success: Order::Release,
                        failure: Order::Relaxed,
                    }
                }
            },
            Decrement::TakeWaker => Request::TakeWaker,
            _ => Request::Store { value: 0, order: Order::Release },
        }
    }

    /// Goes on with what the access gave.
    pub fn resume(self, reply: Reply) -> (next: Decrement)
        requires
            self.wf(),
            self.accepts(reply),
        ensures
            next == self.after(reply),
            next.wf(),
    {
        match (self, reply) {
            (Decrement::Load, Reply::Value(n)) => {
                if n == 1 {
                    // The slot is being worked on.
                    Decrement::Load
                } else {
                    Decrement::Exchange { seen: n }
                }
            },
            (Decrement::Exchange { seen }, Reply::Exchanged(Ok(_))) => {
                if seen == 2 {
                    Decrement::TakeWaker
                } else {
                    Decrement::Done { previous: seen }
                }
            },
            (Decrement::Exchange { .. }, Reply::Exchanged(Err(_))) => Decrement::Load,
            (Decrement::TakeWaker, Reply::Done) => Decrement::Store,
            (Decrement::Store, Reply::Done) => Decrement::Done { previous: 2 },
            _ => self,
        }
    }
}

/// Leaves the waker of the polling owner, unless no borrow is left.
///
/// While it replaces the waker, it takes a borrow of its own, so that no visitor takes itself
/// for the last one. It gives that back as a visitor does: if all the others have gone
/// meanwhile, it is the last one itself, and wakes the waker that it has just left.
#[derive(Clone, Copy, Debug, PartialEq, Eq, Structural)]
pub enum SetWaker {
    /// About to read the counter.
    Load,
    /// Read `seen`; about to raise it.
    Exchange { seen: usize },
    /// Raised the counter from `seen`: has a borrow of its own; about to replace the waker.
    WriteWaker { seen: usize },
    /// Replaced the waker; giving its borrow back.
    Release(Decrement),
    /// Finished: `set` tells that the waker was left, otherwise there is no borrow.
    Done { set: bool },
}

impl SetWaker {
    /// The counter that an exchange starts from counts a borrow and leaves room for another one.
    pub open spec fn wf(self) -> bool {
        match self {
            SetWaker::Exchange { seen } => 2 <= seen < usize::MAX,
            SetWaker::WriteWaker { seen } => 2 <= seen < usize::MAX,
            SetWaker::Release(at) => at.wf() && at !is Done,
            SetWaker::Load | SetWaker::Done { .. } => true,
        }
    }

    /// The access that comes next.
    pub open spec fn asks(self) -> Request {
        match self {
            SetWaker::Exchange { seen } => Request::CompareExchange {
                current: seen,
                new: (seen + 1) as usize,
                success: Order::Acquire,
                failure: Order::Relaxed,
            },
            SetWaker::WriteWaker { .. } => Request::WriteWaker,
            SetWaker::Release(at) => at.asks(),
            _ => Request::Load { order: Order::Relaxed },
        }
    }

    /// Whether `reply` is an answer to the access that comes next, with a counter that leaves
    /// room for the borrow that is taken, and that there is one to give back from.
    pub open spec fn accepts(self, reply: Reply) -> bool {
        match self {
            SetWaker::Load => reply matches Reply::Value(n) && n < usize::MAX,
            SetWaker::Exchange { .. } => reply is Exchanged,
            SetWaker::WriteWaker { .. } => reply is Done,
            SetWaker::Release(at) => at.accepts(reply),
            SetWaker::Done { .. } => false,
        }
    }

    /// Where the program stands once the access has given `reply`.
    pub open spec fn after(self, reply: Reply) -> SetWaker {
        match (self, reply) {
            (SetWaker::Load, Reply::Value(n)) => if n == 0 {
                SetWaker::Done { set: false }
            } else if n == 1 {
                SetWaker::Load
            } else {
                SetWaker::Exchange { seen: n }
            },
            (SetWaker::Exchange { seen }, Reply::Exchanged(Ok(_))) => SetWaker::WriteWaker { seen },
            (SetWaker::Exchange { .. }, Reply::Exchanged(Err(_))) => SetWaker::Load,
            (SetWaker::WriteWaker { .. }, Reply::Done) => SetWaker::Release(Decrement::Load),
            (SetWaker::Release(at), _) => match at.after(reply) {
                Decrement::Done { .. } => SetWaker::Done { set: true },
                next => SetWaker::Release(next),
            },
            _ => self,
        }
    }

    /// The access to perform next.
    pub fn request(self) -> (request: Request)
        requires
            self.wf(),
            self !is Done,
        ensures
            request == self.asks(),
    {
        match self {
            SetWaker::Exchange { seen } => Request::CompareExchange {
                current: seen,
                new: seen + 1,
                success: Order::Acquire,
                failure: Order::Relaxed,
            },
            SetWaker::WriteWaker { .. } => Request::WriteWaker,
            SetWaker::Release(at) => at.request(),
            _ => Request::Load { order: Order::Relaxed },
        }
    }

    /// Goes on with what the access gave.
    pub fn resume(self, reply: Reply) -> (next: SetWaker)
        requires
            self.wf(),
            self.accepts(reply),
        ensures
            next == self.after(reply),
            next.wf(),
    {
        match (self, reply) {
            (SetWaker::Load, Reply::Value(n)) => {
                if n == 0 {
                    // No visitors.
                    SetWaker::Done { set: false }
                } else if n == 1 {
                    // The slot is being worked on.
                    SetWaker::Load
                } else {
                    SetWaker::Exchange { seen: n }
                }
            },
            (SetWaker::Exchange { seen }, Reply::Exchanged(Ok(_))) => SetWaker::WriteWaker { seen },
            (SetWaker::Exchange { .. }, Reply::Exchanged(Err(_))) => SetWaker::Load,
            (SetWaker::WriteWaker { .. }, Reply::Done) => SetWaker::Release(Decrement::Load),
            (SetWaker::Release(at), reply) => {
                match at.resume(reply) {
                    Decrement::Done { .. } => SetWaker::Done { set: true },
                    next => SetWaker::Release(next),
                }
            },
            _ => self,
        }
    }
}

/// An access to the counter gives the counter as it found it, and changes it once: an addition
/// moves it by what was added, an exchange succeeds if and only if it found what it was told to
/// and writes only then, and nothing but an addition, an exchange or a store writes it.
pub proof fn law_an_access_changes_the_counter_once(word: Word, request: Request)
    requires
        request.on_counter(),
    ensures
        ({
            let after = word.performed(request);
            let reply = word.answer(request);
            &&& after.waker == word.waker
            &&& match request {
                Request::Load { .. } => reply == Reply::Value(word.counter) && after == word,
                Request::CompareExchange { current, new, .. } => match reply {
                    Reply::Exchanged(Ok(found)) => {
                        &&& found == word.counter
                        &&& found == current
                        &&& after.counter == new
                    },
                    Reply::Exchanged(Err(found)) => {
                        &&& found == word.counter
                        &&& found != current
                        &&& after.counter == found
                    },
                    _ => false,
                },
                Request::FetchAdd { value, .. } => {
                    &&& reply == Reply::Value(word.counter)
                    &&& if word.counter + value <= usize::MAX {
                        after.counter - word.counter == value
                    } else {
                        word.counter - after.counter == usize::MAX - value + 1
                    }
                },
                Request::Store { value, .. } => reply is Done && after.counter == value,
                _ => false,
            }
        }),
{
}

/// A drop gives back what a clone took: whoever clones a reference and drops one, with nobody
/// else at work, leaves the counter as it was, and the drop returns one more than that.
pub proof fn law_drop_gives_back_what_clone_took(word: Word)
    requires
        2 <= word.counter < usize::MAX,
    ensures
        ({
            let cloned = word.performed(add_borrow());
            let read = Decrement::Load.after(cloned.answer(Decrement::Load.asks()));
            let dropped = cloned.performed(read.asks());
            &&& word.answer(add_borrow()) == Reply::Value(word.counter)
            &&& cloned.counter == word.counter + 1
            &&& dropped == word
            &&& read.after(cloned.answer(read.asks())) == (Decrement::Done {
                previous: (word.counter + 1) as usize,
            })
        }),
{
}

/// That an access publishes what was done before it: where it writes, it does so with release.
pub open spec fn publishes(request: Request) -> bool {
    match request {
        Request::CompareExchange { success, .. } => success == Order::Release,
        Request::Store { order, .. } => order == Order::Release,
        _ => false,
    }
}

/// That an access sees what others have published before it: where it writes, it does so with
/// acquire.
pub open spec fn sees(request: Request) -> bool {
    request matches Request::CompareExchange { success, .. } && success == Order::Acquire
}

/// A program that gives a borrow back, or makes a first one known, publishes what was done
/// before; and whoever is going to work on the waker slot has seen what the one before it did.
pub proof fn law_slot_and_value_are_passed_on(
    increment: Increment,
    decrement: Decrement,
    set_waker: SetWaker,
    reply: Reply,
)
    ensures
        decrement.accepts(reply) && decrement.after(reply) is Done ==> publishes(decrement.asks()),
        decrement.accepts(reply) && decrement !is TakeWaker && decrement.after(reply) is TakeWaker
            ==> sees(decrement.asks()),
        increment.accepts(reply) && increment.after(reply) == (Increment::Done { previous: 0 })
            ==> publishes(increment.asks()),
        increment.accepts(reply) && increment !is WriteNoop && increment.after(reply) is WriteNoop
            ==> sees(increment.asks()),
        set_waker.accepts(reply) && set_waker.after(reply) == (SetWaker::Done { set: true })
            ==> publishes(set_waker.asks()),
        set_waker.accepts(reply) && set_waker !is WriteWaker && set_waker.after(reply) is WriteWaker
            ==> sees(set_waker.asks()),
        set_waker.accepts(reply) && set_waker.after(reply) == SetWaker::Release(
            Decrement::TakeWaker,
        ) && set_waker != SetWaker::Release(Decrement::TakeWaker) ==> sees(set_waker.asks()),
{
}

} // verus!
