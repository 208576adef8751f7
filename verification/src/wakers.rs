//! What the library takes for granted of wakers and of the polls that bring them.
//!
//! That is next to nothing: what a waker does rests on the rest of the program. The contracts of
//! the library say instead which wakers it woke, and, by `call_ensures`, on which values the
//! other functions were called and what it made of each result.
use std::task::{Context, Poll, Waker};
use vstd::prelude::*;

verus! {

/// `std::task::Waker`, carried without a look inside.
#[verifier::external_type_specification]
#[verifier::external_body]
pub struct ExWaker(Waker);

/// `std::task::Context`, carried without a look inside.
#[verifier::external_type_specification]
#[verifier::external_body]
pub struct ExContext<'a>(Context<'a>);

/// `std::task::Poll`, with its two variants.
#[verifier::external_type_specification]
pub struct ExPoll<T>(Poll<T>);

/// `Context::waker`: the waker of the task that polls. Nothing is claimed of which one that is.
pub assume_specification<'a, 'b>[ Context::<'a>::waker ](cx: &'b Context<'a>) -> &'a Waker;

/// `Waker::clone`: a waker for the same task. Nothing is claimed of the copy.
pub assume_specification[ <Waker as Clone>::clone ](waker: &Waker) -> Waker;

/// `futures::task::noop_waker`: a waker that does nothing when it is woken. Nothing is claimed
/// of the value; the library keeps track of where it put one.
pub assume_specification[ futures::task::noop_waker ]() -> Waker;

/// That `waker` is what a call of `futures::task::noop_waker` gave.
pub open spec fn is_noop(waker: Waker) -> bool {
    call_ensures(futures::task::noop_waker, (), waker)
}

/// That `waker` is what a call of `Context::waker` on `cx` gave.
pub open spec fn lent_by(cx: Context<'_>, waker: Waker) -> bool {
    exists|context: &Context<'_>, lent: &Waker|
        *context == cx && *lent == waker && call_ensures(Context::waker, (context,), lent)
}

/// That `waker` is what a call of `Waker::clone` on the waker of `cx` gave.
pub open spec fn waker_of(cx: Context<'_>, waker: Waker) -> bool {
    exists|context: &Context<'_>, lent: &Waker|
        *context == cx && call_ensures(Context::waker, (context,), lent) && call_ensures(
            <Waker as Clone>::clone,
            (lent,),
            waker,
        )
}

/// What became of wakers.
#[verifier::ext_equal]
pub struct WakesView {
    /// Those that were woken, in order.
    pub woken: Seq<Waker>,
    /// Those that were forgotten, in order: neither woken nor dropped.
    pub forgotten: Seq<Waker>,
}

/// A record of the wakers that were woken or forgotten here.
///
/// This is the only way to do either: what does not show here did not happen.
pub struct Wakes {
    log: Ghost<WakesView>,
}

impl View for Wakes {
    type V = WakesView;

    closed spec fn view(&self) -> WakesView {
        self.log@
    }
}

impl Wakes {
    /// Nothing was woken or forgotten yet.
    pub fn new() -> (wakes: Self)
        ensures
            wakes@.woken == Seq::<Waker>::empty(),
            wakes@.forgotten == Seq::<Waker>::empty(),
    {
        Wakes { log: Ghost(WakesView { woken: Seq::empty(), forgotten: Seq::empty() }) }
    }

    /// `Waker::wake`: wakes the task of the waker. It is claimed that this is one wake of that
    /// waker and of no other. Nothing is claimed of what it brings about.
    #[verifier::external_body]
    pub(crate) fn wake(&mut self, waker: Waker)
        ensures
            final(self)@ == (WakesView { woken: old(self)@.woken.push(waker), ..old(self)@ }),
    {
        waker.wake()
    }

    /// `std::mem::forget`: takes the waker and does not run its destructor.
    #[verifier::external_body]
    pub(crate) fn forget(&mut self, waker: Waker)
        ensures
            final(self)@ == (WakesView {
                forgotten: old(self)@.forgotten.push(waker),
                ..old(self)@
            }),
    {
        std::mem::forget(waker)
    }
}

} // verus!
