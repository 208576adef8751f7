//! One access to a counter, made once.
//!
//! What an access does is written down here for every kind of counter, shared or not. The counter
//! is handed over with the request and is gone with the operation that is called on it, so that
//! there is one such call. Nobody who passes the request on can reach the counter.
use crate::atomic::to_std;
use crate::protocol::{Reply, Request};
use std::sync::atomic::Ordering;
use vstd::prelude::*;

verus! {

/// A counter together with the access that is to be made to it.
pub struct Access<C> {
    counter: C,
    request: Request,
}

/// A counter that can be accessed.
pub trait Counter<L, X, A, S>: Sized {
    /// That the four operations are the counter's own, and not others that come to the same
    /// result by more than that.
    spec fn has_ops(load: L, exchange: X, fetch_add: A, store: S) -> bool where
        L: FnOnce(Self, Ordering) -> usize,
        X: FnOnce(Self, usize, usize, Ordering, Ordering) -> Result<usize, usize>,
        A: FnOnce(Self, usize, Ordering) -> usize,
        S: FnOnce(Self, usize, Ordering),
    ;
}

impl<C> Access<C> {
    /// The counter.
    pub closed spec fn counter(self) -> C {
        self.counter
    }

    /// The access that is to be made.
    pub closed spec fn request(self) -> Request {
        self.request
    }

    /// The access of `request` to `counter`.
    pub fn new(counter: C, request: Request) -> (access: Self)
        ensures
            access.counter() == counter,
            access.request() == request,
    {
        Access { counter, request }
    }

    /// Makes the access, by one of the four operations of the counter.
    pub fn make<L, X, A, S>(
        self,
        load: L,
        exchange: X,
        fetch_add: A,
        store: S,
    ) -> (reply: Reply) where
        L: FnOnce(C, Ordering) -> usize,
        X: FnOnce(C, usize, usize, Ordering, Ordering) -> Result<usize, usize>,
        A: FnOnce(C, usize, Ordering) -> usize,
        S: FnOnce(C, usize, Ordering),
        C: Counter<L, X, A, S>,

        requires
            self.request().on_counter(),
            C::has_ops(load, exchange, fetch_add, store),
            match self.request() {
                Request::Load { order } => call_requires(
                    load,
                    (self.counter(), crate::atomic::order_of(order)),
                ),
                Request::CompareExchange { current, new, success, failure } => call_requires(
                    exchange,
                    (
                        self.counter(),
                        current,
                        new,
                        crate::atomic::order_of(success),
                        crate::atomic::order_of(failure),
                    ),
                ),
                Request::FetchAdd { value, order } => call_requires(
                    fetch_add,
                    (self.counter(), value, crate::atomic::order_of(order)),
                ),
                Request::Store { value, order } => call_requires(
                    store,
                    (self.counter(), value, crate::atomic::order_of(order)),
                ),
                _ => true,
            },
        ensures
            match self.request() {
                Request::Load { order } => reply matches Reply::Value(n) && call_ensures(
                    load,
                    (self.counter(), crate::atomic::order_of(order)),
                    n,
                ),
                Request::CompareExchange { current, new, success, failure } => {
                    reply matches Reply::Exchanged(exchanged) && call_ensures(
                        exchange,
                        (
                            self.counter(),
                            current,
                            new,
                            crate::atomic::order_of(success),
                            crate::atomic::order_of(failure),
                        ),
                        exchanged,
                    )
                },
                Request::FetchAdd { value, order } => reply matches Reply::Value(n)
                    && call_ensures(
                    fetch_add,
                    (self.counter(), value, crate::atomic::order_of(order)),
                    n,
                ),
                Request::Store { value, order } => reply is Done && call_ensures(
                    store,
                    (self.counter(), value, crate::atomic::order_of(order)),
                    (),
                ),
                _ => true,
            },
    {
        let counter = self.counter;
        match self.request {
            Request::Load { order } => {
                let n: usize = load(counter, to_std(order));
                Reply::Value(n)
            },
            Request::CompareExchange { current, new, success, failure } => {
                let exchanged = exchange(counter, current, new, to_std(success), to_std(failure));
                Reply::Exchanged(exchanged)
            },
            Request::FetchAdd { value, order } => {
                let n: usize = fetch_add(counter, value, to_std(order));
                Reply::Value(n)
            },
            Request::Store { value, order } => {
                store(counter, value, to_std(order));
                Reply::Done
            },
            _ => Reply::Done,
        }
    }
}

impl<'a, L, X, A, S> Counter<L, X, A, S> for &'a mut usize {
    open spec fn has_ops(load: L, exchange: X, fetch_add: A, store: S) -> bool where
        L: FnOnce(Self, Ordering) -> usize,
        X: FnOnce(Self, usize, usize, Ordering, Ordering) -> Result<usize, usize>,
        A: FnOnce(Self, usize, Ordering) -> usize,
        S: FnOnce(Self, usize, Ordering),
    {
        true
    }
}

proof fn lemma_has_ops<'a, L, X, A, S>(load: L, exchange: X, fetch_add: A, store: S) where
    L: FnOnce(&'a mut usize, Ordering) -> usize,
    X: FnOnce(&'a mut usize, usize, usize, Ordering, Ordering) -> Result<usize, usize>,
    A: FnOnce(&'a mut usize, usize, Ordering) -> usize,
    S: FnOnce(&'a mut usize, usize, Ordering),

    ensures
        <&'a mut usize>::has_ops(load, exchange, fetch_add, store),
{
}

/// Reads a counter.
fn load_word(counter: &mut usize, _order: Ordering) -> (n: usize)
    ensures
        n == *old(counter),
        *final(counter) == *old(counter),
{
    *counter
}

/// Writes `new` to a counter if it reads `current`.
fn exchange_word(
    counter: &mut usize,
    current: usize,
    new: usize,
    _success: Ordering,
    _failure: Ordering,
) -> (exchanged: Result<usize, usize>)
    ensures
        match exchanged {
            Ok(found) => found == *old(counter) && found == current && *final(counter) == new,
            Err(found) => found == *old(counter) && found != current && *final(counter) == found,
        },
{
    let found: usize = *counter;
    if found == current {
        *counter = new;
        Ok(found)
    } else {
        Err(found)
    }
}

/// Adds to a counter, wrapping around at the end of its range.
fn add_word(counter: &mut usize, value: usize, _order: Ordering) -> (n: usize)
    ensures
        n == *old(counter),
        *final(counter) == crate::protocol::wrapping_sum(*old(counter), value),
{
    let found: usize = *counter;
    *counter = found.wrapping_add(value);
    found
}

/// Writes a counter.
fn store_word(counter: &mut usize, value: usize, _order: Ordering)
    ensures
        *final(counter) == value,
{
    *counter = value;
}

/// Makes an access to a counter that nobody else has.
pub fn access_word(counter: &mut usize, request: Request) -> (reply: Reply)
    requires
        request.on_counter(),
    ensures
        match request {
            Request::Load { .. } => {
                &&& reply == Reply::Value(*old(counter))
                &&& *final(counter) == *old(counter)
            },
            Request::CompareExchange { current, new, .. } => if *old(counter) == current {
                &&& reply == Reply::Exchanged(Ok(*old(counter)))
                &&& *final(counter) == new
            } else {
                &&& reply == Reply::Exchanged(Err(*old(counter)))
                &&& *final(counter) == *old(counter)
            },
            Request::FetchAdd { value, .. } => {
                &&& reply == Reply::Value(*old(counter))
                &&& *final(counter) == crate::protocol::wrapping_sum(*old(counter), value)
            },
            Request::Store { value, .. } => {
                &&& reply is Done
                &&& *final(counter) == value
            },
            _ => true,
        },
{
    proof {
        lemma_has_ops(load_word, exchange_word, add_word, store_word);
    }
    Access::new(counter, request).make(load_word, exchange_word, add_word, store_word)
}

} // verus!
