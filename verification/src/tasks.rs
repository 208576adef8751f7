//! What the library takes for granted of the set of tasks that run in a pool.
//!
//! The set goes with a record of what is known of it. The functions here that call the outside
//! set keep the record, and there is no other way to make a set or to change one.
use futures::stream::{FusedStream, FuturesUnordered};
use futures::StreamExt;
use std::future::Future;
use std::task::{Context, Poll, Waker};
use vstd::multiset::Multiset;
use vstd::prelude::*;

verus! {

/// A set of futures that run as one, carried without a look inside.
#[verifier::external_type_specification]
#[verifier::external_body]
#[verifier::reject_recursive_types(Fut)]
pub struct ExFuturesUnordered<Fut>(FuturesUnordered<Fut>);

/// What is known of a set of tasks. A task shows here as it was when it was added.
#[verifier::ext_equal]
pub struct TasksView<F> {
    /// Which set this is.
    pub set: int,
    /// The tasks that have not finished.
    pub running: Multiset<F>,
    /// The tasks that have finished, whose outputs were given.
    pub finished: Multiset<F>,
    /// Whether the set has given its end.
    pub ended: bool,
    /// The waker of the last poll that had to wait.
    pub waits: Option<Waker>,
}

impl<F> TasksView<F> {
    /// The set with one task more, which has not given its end.
    pub open spec fn pushed(self, task: F) -> TasksView<F> {
        TasksView { running: self.running.insert(task), ended: false, ..self }
    }

    /// The set after `task` has finished and its output was given.
    pub open spec fn finish(self, task: F) -> TasksView<F> {
        TasksView {
            running: self.running.remove(task),
            finished: self.finished.insert(task),
            ..self
        }
    }
}

/// What a poll in the context `cx` that gives `polled` makes of a set of tasks.
///
/// It gives the output of one of the tasks, or the end where no task is left, or has to wait
/// and leaves the waker of its context to be woken. A set that has given its end has no output.
pub open spec fn polled_set<F, V>(
    before: TasksView<F>,
    after: TasksView<F>,
    cx: Context<'_>,
    polled: Poll<Option<V>>,
) -> bool {
    match polled {
        Poll::Ready(Some(_)) => {
            &&& !before.ended
            &&& exists|task: F|
                before.running.count(task) > 0 && after == #[trigger] before.finish(task)
        },
        Poll::Ready(None) => {
            &&& before.running == Multiset::<F>::empty()
            &&& after == (TasksView { ended: true, ..before })
        },
        Poll::Pending => {
            &&& after == (TasksView { waits: after.waits, ..before })
            &&& after.waits matches Some(waker) && crate::wakers::lent_by(cx, waker)
        },
    }
}

/// A set of tasks.
#[verifier::reject_recursive_types(F)]
pub struct Tasks<F> {
    set: FuturesUnordered<F>,
    known: Ghost<TasksView<F>>,
}

impl<F> View for Tasks<F> {
    type V = TasksView<F>;

    closed spec fn view(&self) -> TasksView<F> {
        self.known@
    }
}

impl<F: Future> Tasks<F> {
    /// `FuturesUnordered::new`: a set without tasks, which has not given its end.
    #[verifier::external_body]
    pub(crate) fn new() -> (tasks: Self)
        ensures
            tasks@.running == Multiset::<F>::empty(),
            tasks@.finished == Multiset::<F>::empty(),
            !tasks@.ended,
            tasks@.waits is None,
    {
        Tasks { set: FuturesUnordered::new(), known: Ghost(vstd::pervasive::arbitrary()) }
    }

    /// `FuturesUnordered::is_terminated`: whether the set has given its end.
    #[verifier::external_body]
    pub(crate) fn is_terminated(&self) -> (ended: bool)
        ensures
            ended == self@.ended,
    {
        self.set.is_terminated()
    }

    /// `FuturesUnordered::push`: adds a task to the set, which has not given its end then.
    /// Nothing is claimed of when the task runs.
    #[verifier::external_body]
    pub(crate) fn push(&mut self, task: F)
        ensures
            final(self)@ == old(self)@.pushed(task),
    {
        self.set.push(task)
    }

    /// `FuturesUnordered::poll_next_unpin`: the output of a task that has finished, which rests
    /// on the tasks. It is claimed what becomes of the set. What the output is rests on what the
    /// task computes, so nothing is claimed of it. The context is only read. Where a task panics,
    /// so does this.
    #[verifier::external_body]
    pub(crate) fn poll(&mut self, cx: &mut Context<'_>) -> (polled: Poll<Option<F::Output>>)
        ensures
            *final(cx) == *old(cx),
            polled_set(old(self)@, final(self)@, *old(cx), polled),
    {
        self.set.poll_next_unpin(cx)
    }
}

} // verus!
