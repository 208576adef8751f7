//! Tasks that are spawned into a pool and run there as one stream of outputs.
use crate::channel::{new_channel, Inbox, InboxView, Outbox, OutboxView};
use crate::poll_run::PollRun;
use crate::tasks::{Tasks, TasksView};
use futures::channel::mpsc::SendError;
use std::future::Future;
use std::task::{Context, Poll};
use vstd::multiset::Multiset;
use vstd::prelude::*;

verus! {

/// The task could not be spawned: the pool is gone.
#[derive(Debug, PartialEq, Eq)]
pub struct SpawnError {
    /// What the channel said.
    pub cause: SendError,
}

/// Spawning handle for an anchor.
///
/// A task is a future of type `F`.
#[verifier::reject_recursive_types(F)]
pub struct Spawner<F> {
    pub sender: Outbox<F>,
}

/// What a spawner makes of the outcome of a send.
pub fn spawned(sent: Result<(), SendError>) -> (outcome: Result<(), SpawnError>)
    ensures
        outcome == (match sent {
            Ok(()) => Ok(()),
            Err(cause) => Err(SpawnError { cause }),
        }),
{
    match sent {
        Ok(()) => Ok(()),
        Err(cause) => Err(SpawnError { cause }),
    }
}

/// That `sent` is what a call of `UnboundedSender::start_send` on `half` and `task` gave.
pub closed spec fn was_sent<F>(half: &mut Outbox<F>, task: F, sent: Result<(), SendError>) -> bool {
    call_ensures(Outbox::<F>::start_send, (half, task), sent)
}

impl<F> Spawner<F> {
    /// Sends a task to the pool.
    ///
    /// Whether it is accepted rests on the pool: it is for as long as the pool is there.
    pub fn spawn(&mut self, task: F) -> (outcome: Result<(), SpawnError>)
        ensures
            outcome is Ok ==> final(self).sender@ == (OutboxView {
                sent: old(self).sender@.sent.push(task),
                ..old(self).sender@
            }),
            outcome is Err ==> final(self).sender@ == old(self).sender@,
            exists|half: &mut Outbox<F>, sent: Result<(), SendError>|
                *half == old(self).sender && *final(half) == final(self).sender && was_sent(
                    half,
                    task,
                    sent,
                ) && outcome == (match sent {
                    Ok(()) => Ok(()),
                    Err(cause) => Err(SpawnError { cause }),
                }),
    {
        let sent = self.sender.start_send(task);
        assert(exists|half: &mut Outbox<F>|
            *half == old(self).sender && *final(half) == self.sender && #[trigger] call_ensures(
                Outbox::<F>::start_send,
                (half, task),
                sent,
            ) && was_sent(half, task, sent));
        spawned(sent)
    }
}

impl<F> Clone for Spawner<F> {
    /// One more spawner for the same pool.
    fn clone(&self) -> (other: Self)
        ensures
            other.sender@ == (OutboxView { sent: Seq::empty(), ..self.sender@ }),
    {
        Spawner { sender: self.sender.another() }
    }
}

/// An anchor to handle safe scoped task "spawning".
///
/// What lends the spawner out is written for a spawner of any type `S`. So it can do nothing with
/// the spawner but lend it: in particular it makes no other one, which would keep the channel of
/// the pool from ending.
#[verifier::reject_recursive_types(F)]
pub struct Anchor<F, S = Spawner<F>> {
    pub receiver: Inbox<F>,
    pub spawner: S,
}

impl<F: Future> Anchor<F> {
    /// An anchor with a channel of its own.
    pub fn new() -> (anchor: Self)
        ensures
            anchor.spawner.sender@.channel == anchor.receiver@.channel,
            anchor.spawner.sender@.sent == Seq::<F>::empty(),
            anchor.receiver@.taken == Seq::<F>::empty(),
            !anchor.receiver@.ended,
            anchor.receiver@.waits is None,
    {
        let (sender, receiver) = new_channel();
        Anchor { receiver, spawner: Spawner { sender } }
    }

    /// Gives up spawning for running.
    pub fn stream(self) -> (pool: Pool<F>)
        ensures
            pool.receiver == self.receiver,
            pool@.is_new(self.receiver@),
            pool@.wf(),
            self.receiver@.taken == Seq::<F>::empty() ==> pool@.accounted(),
    {
        let pool = Pool { receiver: self.receiver, tasks: Tasks::new() };
        proof {
            crate::poll_run::law_new_pool_is_accounted(pool@, self.receiver@);
        }
        pool
    }
}

impl<F, S> std::ops::Deref for Anchor<F, S> {
    type Target = S;

    fn deref(&self) -> (spawner: &S)
        ensures
            *spawner == self.spawner,
    {
        &self.spawner
    }
}

impl<F, S> std::ops::DerefMut for Anchor<F, S> {
    fn deref_mut(&mut self) -> (spawner: &mut S)
        ensures
            *spawner == old(self).spawner,
            *final(self) == (Anchor { spawner: *final(spawner), ..*old(self) }),
    {
        &mut self.spawner
    }
}

/// A stream of the outputs of the tasks that were spawned.
#[must_use]
#[verifier::reject_recursive_types(F)]
pub struct Pool<F> {
    /// The tasks to come.
    pub receiver: Inbox<F>,
    /// The tasks that run.
    pub tasks: Tasks<F>,
}

/// What is known of a pool.
pub struct PoolView<F> {
    pub channel: InboxView<F>,
    pub tasks: TasksView<F>,
}

impl<F> PoolView<F> {
    /// The pool takes its tasks from `channel` and has not taken any to run yet.
    pub open spec fn is_new(self, channel: InboxView<F>) -> bool {
        &&& self.channel == channel
        &&& self.tasks.running == Multiset::<F>::empty()
        &&& self.tasks.finished == Multiset::<F>::empty()
        &&& !self.tasks.ended
        &&& self.tasks.waits is None
    }

    /// Nothing runs or has finished but tasks that came through the channel, each of them once.
    pub open spec fn wf(self) -> bool {
        self.tasks.running.add(self.tasks.finished).subset_of(self.channel.taken.to_multiset())
    }

    /// `task` is the last that came through the channel, and was not added to the tasks yet.
    pub open spec fn has_in_hand(self, task: F) -> bool {
        &&& self.channel.taken.len() > 0
        &&& self.channel.taken.last() == task
        &&& self.tasks.running.add(self.tasks.finished).count(task)
            < self.channel.taken.to_multiset().count(task)
    }

    /// Every task that came through the channel is accounted for: it runs, or it has finished
    /// and its output was given. None runs where the tasks have given their end.
    pub open spec fn accounted(self) -> bool {
        &&& self.channel.taken.to_multiset() == self.tasks.running.add(self.tasks.finished)
        &&& self.tasks.ended ==> self.tasks.running == Multiset::<F>::empty()
    }

    /// The channel will wake a task that polled in the context `cx`.
    pub open spec fn channel_wakes(self, cx: Context<'_>) -> bool {
        self.channel.waits matches Some(waker) && crate::wakers::lent_by(cx, waker)
    }

    /// The tasks will wake a task that polled in the context `cx`.
    pub open spec fn tasks_wake(self, cx: Context<'_>) -> bool {
        self.tasks.waits matches Some(waker) && crate::wakers::lent_by(cx, waker)
    }
}

impl<F> View for Pool<F> {
    type V = PoolView<F>;

    open spec fn view(&self) -> PoolView<F> {
        PoolView { channel: self.receiver@, tasks: self.tasks@ }
    }
}

/// How far a poll of the pool has come. Each step asks one thing of the channel or of the tasks.
pub enum PollStep<F, V> {
    /// Asks whether the channel has ended.
    Start,
    /// The channel has ended: leaves the poll to the tasks.
    Delegate,
    /// Polls the channel.
    Drain,
    /// The channel gave a task: adds it to the others.
    Push { task: F },
    /// The channel gave its end: asks whether the tasks have ended.
    Closed,
    /// The channel has no more for now: asks whether the tasks have ended.
    Check,
    /// Polls the tasks.
    Run,
    /// The tasks gave their end: asks whether the channel has ended.
    Idle,
    /// The poll is over.
    Done { polled: Poll<Option<V>> },
}

/// What the channel or the tasks gave.
pub enum PollReply<F, V> {
    /// Whether it has ended.
    Ended(bool),
    /// What a poll of the channel gave.
    Received(Poll<Option<F>>),
    /// The task was added.
    Pushed,
    /// What a poll of the tasks gave.
    Ran(Poll<Option<V>>),
}

impl<F, V> PollStep<F, V> {
    /// Whether `reply` is an answer to what the step asks.
    pub open spec fn accepts(self, reply: PollReply<F, V>) -> bool {
        match self {
            PollStep::Start | PollStep::Closed | PollStep::Check | PollStep::Idle => reply is Ended,
            PollStep::Drain => reply is Received,
            PollStep::Push { .. } => reply is Pushed,
            PollStep::Delegate | PollStep::Run => reply is Ran,
            PollStep::Done { .. } => false,
        }
    }

    /// The step that follows once `reply` was given.
    pub open spec fn after(self, reply: PollReply<F, V>) -> PollStep<F, V> {
        match (self, reply) {
            (PollStep::Start, PollReply::Ended(ended)) => if ended {
                PollStep::Delegate
            } else {
                PollStep::Drain
            },
            (PollStep::Delegate, PollReply::Ran(polled)) => PollStep::Done { polled },
            (PollStep::Drain, PollReply::Received(polled)) => match polled {
                Poll::Ready(None) => PollStep::Closed,
                Poll::Ready(Some(task)) => PollStep::Push { task },
                Poll::Pending => PollStep::Check,
            },
            (PollStep::Push { .. }, PollReply::Pushed) => PollStep::Drain,
            (PollStep::Closed, PollReply::Ended(ended)) => if ended {
                PollStep::Done { polled: Poll::Ready(None) }
            } else {
                PollStep::Check
            },
            (PollStep::Check, PollReply::Ended(ended)) => if ended {
                PollStep::Done { polled: Poll::Pending }
            } else {
                PollStep::Run
            },
            (PollStep::Run, PollReply::Ran(polled)) => match polled {
                Poll::Ready(None) => PollStep::Idle,
                _ => PollStep::Done { polled },
            },
            (PollStep::Idle, PollReply::Ended(ended)) => PollStep::Done {
                polled: if ended {
                    Poll::Ready(None)
                } else {
                    Poll::Pending
                },
            },
            _ => self,
        }
    }

    /// Goes on with what the channel or the tasks gave.
    pub fn resume(self, reply: PollReply<F, V>) -> (next: PollStep<F, V>)
        requires
            self.accepts(reply),
        ensures
            next == self.after(reply),
    {
        match (self, reply) {
            (PollStep::Start, PollReply::Ended(ended)) => {
                if ended {
                    // Only the tasks now.
                    PollStep::Delegate
                } else {
                    PollStep::Drain
                }
            },
            (PollStep::Delegate, PollReply::Ran(polled)) => PollStep::Done { polled },
            (PollStep::Drain, PollReply::Received(polled)) => {
                match polled {
                    Poll::Ready(None) => PollStep::Closed,
                    Poll::Ready(Some(task)) => PollStep::Push { task },
                    Poll::Pending => PollStep::Check,
                }
            },
            (PollStep::Push { .. }, PollReply::Pushed) => PollStep::Drain,
            (PollStep::Closed, PollReply::Ended(ended)) => {
                if ended {
                    // The end of the stream.
                    PollStep::Done { polled: Poll::Ready(None) }
                } else {
                    PollStep::Check
                }
            },
            (PollStep::Check, PollReply::Ended(ended)) => {
                if ended {
                    PollStep::Done { polled: Poll::Pending }
                } else {
                    // There are tasks to run.
                    PollStep::Run
                }
            },
            (PollStep::Run, PollReply::Ran(polled)) => {
                match polled {
                    Poll::Ready(None) => PollStep::Idle,
                    polled => PollStep::Done { polled },
                }
            },
            (PollStep::Idle, PollReply::Ended(ended)) => {
                if ended {
                    // The end of the stream.
                    PollStep::Done { polled: Poll::Ready(None) }
                } else {
                    PollStep::Done { polled: Poll::Pending }
                }
            },
            (step, _) => step,
        }
    }
}

/// That `reply` is one that a channel and tasks give to what `step` asks in the context `cx`,
/// and what becomes of the two.
pub open spec fn obeys<F, V>(
    step: PollStep<F, V>,
    reply: PollReply<F, V>,
    cx: Context<'_>,
    before: PoolView<F>,
    after: PoolView<F>,
) -> bool {
    match step {
        PollStep::Start | PollStep::Idle => {
            &&& reply == PollReply::<F, V>::Ended(before.channel.ended)
            &&& after == before
        },
        PollStep::Closed | PollStep::Check => {
            &&& reply == PollReply::<F, V>::Ended(before.tasks.ended)
            &&& after == before
        },
        PollStep::Drain => {
            &&& reply matches PollReply::Received(polled)
            &&& crate::channel::polled_half(before.channel, after.channel, cx, polled)
            &&& after.tasks == before.tasks
        },
        PollStep::Push { task } => {
            &&& reply is Pushed
            &&& after == (PoolView { tasks: before.tasks.pushed(task), ..before })
        },
        PollStep::Delegate | PollStep::Run => {
            &&& reply matches PollReply::Ran(polled)
            &&& crate::tasks::polled_set(before.tasks, after.tasks, cx, polled)
            &&& after.channel == before.channel
        },
        PollStep::Done { .. } => false,
    }
}

/// That a poll in the context `cx` goes from `step` to `next`, and the pool from `before` to
/// `after`, with an answer that the channel or the tasks give.
pub open spec fn steps_to<F, V>(
    step: PollStep<F, V>,
    next: PollStep<F, V>,
    cx: Context<'_>,
    before: PoolView<F>,
    after: PoolView<F>,
) -> bool {
    exists|reply: PollReply<F, V>|
        #![trigger step.after(reply)]
        next == step.after(reply) && obeys(step, reply, cx, before, after)
}

impl<F: Future> Pool<F> {
    /// Takes one step of a poll: asks the channel or the tasks what the step asks, and goes on
    /// with what they gave.
    ///
    /// A poll takes steps from `PollStep::Start` until one is `PollStep::Done`. The only task that
    /// a step adds is one that the channel gave: no task is spawned to a pool in another way.
    pub fn poll_next(
        &mut self,
        cx: &mut Context<'_>,
        step: PollStep<F, F::Output>,
    ) -> (next: PollStep<F, F::Output>)
        requires
            step !is Done,
            old(self)@.wf(),
            step matches PollStep::Push { task } ==> old(self)@.has_in_hand(task),
        ensures
            steps_to(step, next, *old(cx), old(self)@, final(self)@),
            *final(cx) == *old(cx),
            final(self)@.wf(),
            next matches PollStep::Push { task } ==> final(self)@.has_in_hand(task),
            step !is Drain ==> final(self).receiver == old(self).receiver,
            !(step is Push || step is Delegate || step is Run) ==> final(self).tasks == old(
                self,
            ).tasks,
    {
        broadcast use vstd::seq_lib::group_to_multiset_ensures;

        match step {
            PollStep::Start | PollStep::Idle => {
                let ended = self.receiver.is_terminated();
                step.resume(PollReply::Ended(ended))
            },
            PollStep::Closed | PollStep::Check => {
                let ended = self.tasks.is_terminated();
                step.resume(PollReply::Ended(ended))
            },
            PollStep::Drain => {
                let polled = self.receiver.poll(cx);
                step.resume(PollReply::Received(polled))
            },
            PollStep::Push { task } => {
                self.tasks.push(task);
                let ghost pushed = PollReply::<F, F::Output>::Pushed;
                assert(step.after(pushed) is Drain);
                PollStep::Drain
            },
            PollStep::Delegate | PollStep::Run => {
                let polled = self.tasks.poll(cx);
                proof {
                    if let Poll::Ready(Some(_)) = polled {
                        let (then, now) = (old(self)@.tasks, self@.tasks);
                        let task = choose|task: F|
                            then.running.count(task) > 0 && now == #[trigger] then.finish(task);
                        assert(now.running.add(now.finished) =~= then.running.add(then.finished));
                    }
                }
                step.resume(PollReply::Ran(polled))
            },
            PollStep::Done { .. } => step,
        }
    }

    /// Takes the steps of a poll from its start to its end, or `limit` of them.
    ///
    /// Where the limit comes first, nothing is lost: a task that the channel gave is added to the
    /// others even so, and another poll goes on from there.
    pub fn poll_within(&mut self, cx: &mut Context<'_>, limit: usize) -> (polled: Option<
        Poll<Option<F::Output>>,
    >)
        requires
            old(self)@.wf(),
        ensures
            *final(cx) == *old(cx),
            final(self)@.wf(),
            old(self)@.accounted() ==> final(self)@.accounted(),
            exists|run: PollRun<F, F::Output>|
                {
                    &&& #[trigger] run.valid(*old(cx))
                    &&& run.start() == old(self)@
                    &&& run.now() == final(self)@
                    &&& match polled {
                        Some(polled) => run.step() == (PollStep::<F, F::Output>::Done { polled }),
                        None => run.step() !is Done && run.step() !is Push && run.replies.len()
                            >= limit,
                    }
                    &&& run.replies.len() <= limit + 1
                },
    {
        let mut step = PollStep::Start;
        let mut left: usize = limit;
        let ghost mut run = PollRun::<F, F::Output> {
            steps: seq![step],
            replies: Seq::empty(),
            pools: seq![self@],
        };
        loop
            invariant
                self@.wf(),
                *cx == *old(cx),
                run.valid(*cx),
                run.start() == old(self)@,
                run.now() == self@,
                run.step() == step,
                left > 0 || step is Push ==> run.replies.len() + left == limit,
                limit <= run.replies.len() + left <= limit + 1,
                step matches PollStep::Push { task } ==> self@.has_in_hand(task),
            decreases
                    left,
                    if step is Push {
                        1int
                    } else {
                        0
                    },
        {
            match step {
                PollStep::Done { polled } => {
                    proof {
                        if old(self)@.accounted() {
                            crate::poll_run::law_no_task_is_lost(run, *cx);
                        }
                    }
                    return Some(polled);
                },
                current => {
                    let adds = if let PollStep::Push { .. } = &current {
                        true
                    } else {
                        false
                    };
                    if left == 0 && !adds {
                        proof {
                            if old(self)@.accounted() {
                                crate::poll_run::law_no_task_is_lost(run, *cx);
                            }
                        }
                        return None;
                    }
                    step = self.poll_next(cx, current);
                    proof {
                        crate::poll_run::law_step_extends_a_poll(run, *cx, step, self@);
                        let reply = choose|reply: PollReply<F, F::Output>|
                            {
                                let longer = #[trigger] run.extended(reply, self@);
                                longer.valid(*cx) && longer.step() == step && longer.now() == self@
                                    && longer.start() == run.start()
                            };
                        run = run.extended(reply, self@);
                    }
                    if left > 0 {
                        left = left - 1;
                    }
                },
            }
        }
    }

    /// Whether the stream has ended: there is no task to run and none to come.
    pub fn is_terminated(&self) -> (terminated: bool)
        ensures
            terminated == (self@.tasks.ended && self@.channel.ended),
    {
        let tasks = self.tasks.is_terminated();
        let receiver = self.receiver.is_terminated();
        tasks && receiver
    }
}

} // verus!
