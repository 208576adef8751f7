//! The counter word in memory that threads share.
use crate::access::{Access, Counter};
use crate::protocol::{Order, Reply, Request};
use std::sync::atomic::{AtomicUsize, Ordering};
use vstd::prelude::*;

verus! {

/// The memory order of std that an access goes by.
pub open spec fn order_of(order: Order) -> Ordering {
    match order {
        Order::Relaxed => Ordering::Relaxed,
        Order::Acquire => Ordering::Acquire,
        Order::Release => Ordering::Release,
    }
}

/// The memory order of std that an access goes by.
pub(crate) fn to_std(order: Order) -> (converted: Ordering)
    ensures
        converted == order_of(order),
{
    match order {
        Order::Relaxed => Ordering::Relaxed,
        Order::Acquire => Ordering::Acquire,
        Order::Release => Ordering::Release,
    }
}

/// That `reply` is what the atomic operation gave by which `request` is performed on `counter`.
pub open spec fn performed_on<C: SharedCounter>(
    counter: C,
    request: Request,
    reply: Reply,
) -> bool {
    counter.gave(request, reply)
}

/// A counter in memory that threads share.
pub trait SharedCounter: Sized {
    /// That `reply` is what an access of `request` to the counter gave.
    spec fn gave(self, request: Request, reply: Reply) -> bool;

    /// Makes the access by the counter's own operations.
    fn perform(access: Access<Self>) -> (reply: Reply)
        requires
            access.request().on_counter(),
            access.request() matches Request::CompareExchange { failure, .. } ==> failure
                != Order::Release,
            access.request() matches Request::Load { order } ==> order != Order::Release,
            access.request() matches Request::Store { order, .. } ==> order != Order::Acquire,
        ensures
            access.counter().gave(access.request(), reply),
    ;
}

/// That the operations are those of `AtomicUsize`.
///
/// Of a function that is only said to give what an operation gives, the converse cannot be shown:
/// it may do something else besides. It can be shown of the operation itself.
pub open spec fn are_atomic_ops<'a, L, X, A, S>(
    load: L,
    exchange: X,
    fetch_add: A,
    store: S,
) -> bool where
    L: FnOnce(&'a AtomicUsize, Ordering) -> usize,
    X: FnOnce(&'a AtomicUsize, usize, usize, Ordering, Ordering) -> Result<usize, usize>,
    A: FnOnce(&'a AtomicUsize, usize, Ordering) -> usize,
    S: FnOnce(&'a AtomicUsize, usize, Ordering),

{
    &&& forall|counter: &'a AtomicUsize, order: Ordering, n: usize| #[trigger]
        call_ensures(AtomicUsize::load, (counter, order), n) ==> call_ensures(
            load,
            (counter, order),
            n,
        )
    &&& forall|
        counter: &'a AtomicUsize,
        current: usize,
        new: usize,
        success: Ordering,
        failure: Ordering,
        exchanged: Result<usize, usize>,
    | #[trigger]
        call_ensures(
            AtomicUsize::compare_exchange,
            (counter, current, new, success, failure),
            exchanged,
        ) ==> call_ensures(exchange, (counter, current, new, success, failure), exchanged)
    &&& forall|counter: &'a AtomicUsize, value: usize, order: Ordering, n: usize| #[trigger]
        call_ensures(AtomicUsize::fetch_add, (counter, value, order), n) ==> call_ensures(
            fetch_add,
            (counter, value, order),
            n,
        )
    &&& forall|counter: &'a AtomicUsize, value: usize, order: Ordering| #[trigger]
        call_ensures(AtomicUsize::store, (counter, value, order), ()) ==> call_ensures(
            store,
            (counter, value, order),
            (),
        )
}

impl<'a, L, X, A, S> Counter<L, X, A, S> for &'a AtomicUsize {
    open spec fn has_ops(load: L, exchange: X, fetch_add: A, store: S) -> bool where
        L: FnOnce(Self, Ordering) -> usize,
        X: FnOnce(Self, usize, usize, Ordering, Ordering) -> Result<usize, usize>,
        A: FnOnce(Self, usize, Ordering) -> usize,
        S: FnOnce(Self, usize, Ordering),
    {
        are_atomic_ops(load, exchange, fetch_add, store)
    }
}

proof fn lemma_has_ops<'a, L, X, A, S>(load: L, exchange: X, fetch_add: A, store: S) where
    L: FnOnce(&'a AtomicUsize, Ordering) -> usize,
    X: FnOnce(&'a AtomicUsize, usize, usize, Ordering, Ordering) -> Result<usize, usize>,
    A: FnOnce(&'a AtomicUsize, usize, Ordering) -> usize,
    S: FnOnce(&'a AtomicUsize, usize, Ordering),

    requires
        are_atomic_ops(load, exchange, fetch_add, store),
    ensures
        <&'a AtomicUsize>::has_ops(load, exchange, fetch_add, store),
{
}

impl<'a> SharedCounter for &'a AtomicUsize {
    open spec fn gave(self, request: Request, reply: Reply) -> bool {
        match request {
            Request::Load { order } => exists|n: usize| #[trigger]
                call_ensures(AtomicUsize::load, (self, order_of(order)), n) && reply
                    == Reply::Value(n),
            Request::CompareExchange { current, new, success, failure } => exists|
                exchanged: Result<usize, usize>,
            | #[trigger]
                call_ensures(
                    AtomicUsize::compare_exchange,
                    (self, current, new, order_of(success), order_of(failure)),
                    exchanged,
                ) && reply == Reply::Exchanged(exchanged),
            Request::FetchAdd { value, order } => exists|n: usize| #[trigger]
                call_ensures(AtomicUsize::fetch_add, (self, value, order_of(order)), n) && reply
                    == Reply::Value(n),
            Request::Store { value, order } => call_ensures(
                AtomicUsize::store,
                (self, value, order_of(order)),
                (),
            ) && reply == Reply::Done,
            _ => false,
        }
    }

    fn perform(access: Access<Self>) -> (reply: Reply) {
        proof {
            lemma_has_ops(
                AtomicUsize::load,
                AtomicUsize::compare_exchange,
                AtomicUsize::fetch_add,
                AtomicUsize::store,
            );
        }
        access.make(
            AtomicUsize::load,
            AtomicUsize::compare_exchange,
            AtomicUsize::fetch_add,
            AtomicUsize::store,
        )
    }
}

/// Performs an access to a counter that other threads access too, and no other. What it gives
/// rests on them.
pub fn access_atomic<C: SharedCounter>(counter: C, request: Request) -> (reply: Reply)
    requires
        request.on_counter(),
        request matches Request::CompareExchange { failure, .. } ==> failure != Order::Release,
        request matches Request::Load { order } ==> order != Order::Release,
        request matches Request::Store { order, .. } ==> order != Order::Acquire,
    ensures
        performed_on(counter, request, reply),
{
    C::perform(Access::new(counter, request))
}

/// An access goes by the orders that were asked for: std is told to acquire, to release or to do
/// neither exactly where the request says so, at each of the two places of an exchange.
pub proof fn law_orders_are_kept(counter: &AtomicUsize, request: Request, reply: Reply)
    requires
        performed_on(counter, request, reply),
    ensures
        match request {
            Request::Load { order } => exists|by: Ordering, n: usize|
                {
                    &&& #[trigger] call_ensures(AtomicUsize::load, (counter, by), n)
                    &&& reply == Reply::Value(n)
                    &&& by is Acquire <==> order is Acquire
                    &&& by is Release <==> order is Release
                    &&& by is Relaxed <==> order is Relaxed
                },
            Request::CompareExchange { current, new, success, failure } => exists|
                by: Ordering,
                or: Ordering,
                exchanged: Result<usize, usize>,
            |
                {
                    &&& #[trigger] call_ensures(
                        AtomicUsize::compare_exchange,
                        (counter, current, new, by, or),
                        exchanged,
                    )
                    &&& reply == Reply::Exchanged(exchanged)
                    &&& by is Acquire <==> success is Acquire
                    &&& by is Release <==> success is Release
                    &&& by is Relaxed <==> success is Relaxed
                    &&& or is Acquire <==> failure is Acquire
                    &&& or is Release <==> failure is Release
                    &&& or is Relaxed <==> failure is Relaxed
                },
            Request::FetchAdd { value, order } => exists|by: Ordering, n: usize|
                {
                    &&& #[trigger] call_ensures(AtomicUsize::fetch_add, (counter, value, by), n)
                    &&& reply == Reply::Value(n)
                    &&& by is Acquire <==> order is Acquire
                    &&& by is Release <==> order is Release
                    &&& by is Relaxed <==> order is Relaxed
                },
            Request::Store { value, order } => exists|by: Ordering|
                {
                    &&& #[trigger] call_ensures(AtomicUsize::store, (counter, value, by), ())
                    &&& reply is Done
                    &&& by is Acquire <==> order is Acquire
                    &&& by is Release <==> order is Release
                    &&& by is Relaxed <==> order is Relaxed
                },
            _ => false,
        },
{
}

} // verus!
