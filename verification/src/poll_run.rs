//! A poll of the pool from its start to its end, and the polls of a pool from its first on.
use crate::channel::InboxView;
use crate::pool::{PollReply, PollStep, PoolView};
use std::task::{Context, Poll};
use vstd::multiset::Multiset;
use vstd::prelude::*;

verus! {

/// A poll as far as it has come: the steps it has taken and what each of them was given, and
/// the pool before each of them and at the end.
pub struct PollRun<F, V> {
    pub steps: Seq<PollStep<F, V>>,
    pub replies: Seq<PollReply<F, V>>,
    pub pools: Seq<PoolView<F>>,
}

impl<F, V> PollRun<F, V> {
    /// The poll goes from each step to the next as `Pool::poll_next` does in the context `cx`.
    pub open spec fn valid(self, cx: Context<'_>) -> bool {
        &&& self.steps.len() == self.replies.len() + 1
        &&& self.pools.len() == self.steps.len()
        &&& self.steps[0] is Start
        &&& forall|i: int|
            #![trigger self.replies[i]]
            0 <= i < self.replies.len() ==> self.steps[i + 1] == self.steps[i].after(
                self.replies[i],
            ) && crate::pool::obeys(
                self.steps[i],
                self.replies[i],
                cx,
                self.pools[i],
                self.pools[i + 1],
            )
    }

    /// The step that the poll has come to.
    pub open spec fn step(self) -> PollStep<F, V> {
        self.steps.last()
    }

    /// The pool as the poll found it.
    pub open spec fn start(self) -> PoolView<F> {
        self.pools[0]
    }

    /// The pool as it is now.
    pub open spec fn now(self) -> PoolView<F> {
        self.pools.last()
    }

    /// The poll with one more step, which was given `reply` and left the pool as `after`.
    pub open spec fn extended(self, reply: PollReply<F, V>, after: PoolView<F>) -> PollRun<F, V> {
        PollRun {
            steps: self.steps.push(self.step().after(reply)),
            replies: self.replies.push(reply),
            pools: self.pools.push(after),
        }
    }

    /// The poll gave an output.
    pub open spec fn has_output(self) -> bool {
        self.step() matches PollStep::Done { polled: Poll::Ready(Some(_)) }
    }

    /// The poll without its last step.
    spec fn before(self) -> PollRun<F, V> {
        PollRun {
            steps: self.steps.drop_last(),
            replies: self.replies.drop_last(),
            pools: self.pools.drop_last(),
        }
    }

    /// What is known at each step of what the poll has found.
    spec fn inv(self, cx: Context<'_>) -> bool {
        let now = self.now();
        match self.step() {
            PollStep::Start => true,
            PollStep::Delegate => now.channel.ended,
            PollStep::Drain => !now.channel.ended,
            PollStep::Push { .. } => !now.channel.ended,
            PollStep::Closed => now.channel.ended,
            PollStep::Check => if now.channel.ended {
                !now.tasks.ended
            } else {
                now.channel_wakes(cx)
            },
            PollStep::Run => !now.tasks.ended && (now.channel.ended || now.channel_wakes(cx)),
            PollStep::Idle => now.tasks.ended && (now.channel.ended || now.channel_wakes(cx)),
            PollStep::Done { polled } => match polled {
                Poll::Ready(None) => now.channel.ended && now.tasks.ended,
                Poll::Ready(Some(_)) => {
                    &&& self.replies.last() == PollReply::<F, V>::Ran(polled)
                    &&& !now.tasks.ended
                },
                Poll::Pending => {
                    &&& now.channel.ended && now.tasks.ended ==> self.replies.last()
                        == PollReply::<F, V>::Ran(polled)
                    &&& now.channel.ended || now.channel_wakes(cx)
                    &&& now.tasks.ended || now.tasks_wake(cx)
                    &&& now.channel_wakes(cx) || now.tasks_wake(cx)
                },
            },
        }
    }

    /// What is known at each step of the tasks.
    spec fn tasks_inv(self) -> bool {
        let now = self.now();
        let finished = self.start().tasks.finished;
        &&& if self.has_output() {
            exists|task: F| now.tasks.finished == #[trigger] finished.insert(task)
        } else {
            now.tasks.finished == finished
        }
        &&& now.tasks.ended ==> now.tasks.running == Multiset::<F>::empty()
        &&& now.channel.taken.to_multiset() == (match self.step() {
            PollStep::Push { task } => now.tasks.running.add(now.tasks.finished).insert(task),
            _ => now.tasks.running.add(now.tasks.finished),
        })
    }

    proof fn lemma_before(self, cx: Context<'_>)
        requires
            self.valid(cx),
            self.replies.len() > 0,
        ensures
            self.before().valid(cx),
            self.before().start() == self.start(),
            self.step() == self.before().step().after(self.replies.last()),
            crate::pool::obeys(
                self.before().step(),
                self.replies.last(),
                cx,
                self.before().now(),
                self.now(),
            ),
    {
        let before = self.before();
        assert(forall|i: int|
            0 <= i < before.replies.len() ==> before.replies[i] == #[trigger] self.replies[i]);
    }

    /// What is known at each step is so.
    proof fn lemma_inv(self, cx: Context<'_>)
        requires
            self.valid(cx),
        ensures
            self.inv(cx),
        decreases self.replies.len(),
    {
        if self.replies.len() > 0 {
            self.lemma_before(cx);
            self.before().lemma_inv(cx);
        }
    }

    /// What is known at each step of the tasks is so.
    proof fn lemma_tasks_inv(self, cx: Context<'_>)
        requires
            self.valid(cx),
            self.start().accounted(),
        ensures
            self.tasks_inv(),
        decreases self.replies.len(),
    {
        broadcast use vstd::seq_lib::group_to_multiset_ensures;

        if self.replies.len() > 0 {
            self.lemma_before(cx);
            let before = self.before();
            before.lemma_tasks_inv(cx);
            let (then, now) = (before.now(), self.now());
            match before.step() {
                PollStep::Drain => {
                    if let PollReply::Received(Poll::Ready(Some(task))) = self.replies.last() {
                        assert(now.channel.taken.to_multiset() =~= then.tasks.running.add(
                            then.tasks.finished,
                        ).insert(task));
                    }
                },
                PollStep::Push { task } => {
                    assert(now.tasks.running.add(now.tasks.finished) =~= then.tasks.running.add(
                        then.tasks.finished,
                    ).insert(task));
                },
                PollStep::Delegate | PollStep::Run => {
                    if self.has_output() {
                        let task = choose|task: F|
                            then.tasks.running.count(task) > 0 && now.tasks
                                == #[trigger] then.tasks.finish(task);
                        assert(now.tasks.finished == self.start().tasks.finished.insert(task));
                        assert(now.tasks.running.add(now.tasks.finished)
                            =~= then.tasks.running.add(then.tasks.finished));
                    }
                },
                _ => {},
            }
        }
    }
}

/// A step of `Pool::poll_next` carries a poll on: what that function says of a step is what a
/// poll is made of.
pub proof fn law_step_extends_a_poll<F, V>(
    run: PollRun<F, V>,
    cx: Context<'_>,
    next: PollStep<F, V>,
    after: PoolView<F>,
)
    requires
        run.valid(cx),
        crate::pool::steps_to(run.step(), next, cx, run.now(), after),
    ensures
        exists|reply: PollReply<F, V>|
            {
                let longer = #[trigger] run.extended(reply, after);
                longer.valid(cx) && longer.step() == next && longer.now() == after
                    && longer.start() == run.start()
            },
{
    let reply = choose|reply: PollReply<F, V>|
        next == #[trigger] run.step().after(reply) && crate::pool::obeys(
            run.step(),
            reply,
            cx,
            run.now(),
            after,
        );
    let longer = run.extended(reply, after);
    assert forall|i: int|
        #![trigger longer.replies[i]]
        0 <= i < longer.replies.len() implies longer.steps[i + 1] == longer.steps[i].after(
        longer.replies[i],
    ) && crate::pool::obeys(
        longer.steps[i],
        longer.replies[i],
        cx,
        longer.pools[i],
        longer.pools[i + 1],
    ) by {
        if i < run.replies.len() {
            assert(longer.replies[i] == run.replies[i]);
        }
    }
}

/// A poll gives the end of the stream if and only if the channel and the tasks have given theirs;
/// unless the tasks, asked once more, have to wait.
pub proof fn law_stream_ends_where_both_have_ended<F, V>(run: PollRun<F, V>, cx: Context<'_>)
    requires
        run.valid(cx),
        run.step() is Done,
        run.replies.last() != PollReply::<F, V>::Ran(Poll::Pending),
    ensures
        run.step()->polled == Poll::<Option<V>>::Ready(None) <==> run.now().channel.ended
            && run.now().tasks.ended,
{
    run.lemma_inv(cx);
}

/// A pool that has not taken any task to run holds none that did not come through its channel,
/// and accounts for all that came where none did yet, as it is with the pool of a new anchor.
pub proof fn law_new_pool_is_accounted<F>(pool: PoolView<F>, channel: InboxView<F>)
    requires
        pool.is_new(channel),
    ensures
        pool.wf(),
        channel.taken == Seq::<F>::empty() ==> pool.accounted(),
{
    broadcast use vstd::seq_lib::group_to_multiset_ensures;

    if channel.taken.len() == 0 {
        assert(channel.taken.to_multiset() =~= pool.tasks.running.add(pool.tasks.finished));
    }
}

/// The number of steps that a poll can have taken when it has come to `step` and was given
/// `received` tasks.
spec fn steps_at<F, V>(step: PollStep<F, V>, received: int) -> int {
    match step {
        PollStep::Start => 0,
        PollStep::Delegate => 1,
        PollStep::Drain => 2 * received + 1,
        PollStep::Push { .. } => 2 * received,
        PollStep::Closed => 2 * received + 2,
        PollStep::Check => 2 * received + 3,
        PollStep::Run => 2 * received + 4,
        PollStep::Idle => 2 * received + 5,
        PollStep::Done { .. } => 2 * received + 6,
    }
}

proof fn lemma_poll_is_short<F, V>(run: PollRun<F, V>, cx: Context<'_>)
    requires
        run.valid(cx),
    ensures
        run.now().channel.taken.len() >= run.start().channel.taken.len(),
        run.step() is Push ==> run.now().channel.taken.len() > run.start().channel.taken.len(),
        run.replies.len() <= steps_at(
            run.step(),
            run.now().channel.taken.len() - run.start().channel.taken.len(),
        ),
        run.step() is Start ==> run.replies.len() == 0,
        run.step() is Delegate ==> run.replies.len() == 1,
    decreases run.replies.len(),
{
    if run.replies.len() > 0 {
        run.lemma_before(cx);
        lemma_poll_is_short(run.before(), cx);
    }
}

/// A poll ends: it takes two steps for each task that the channel gives it, and no more than six
/// besides.
pub proof fn law_poll_is_short<F, V>(run: PollRun<F, V>, cx: Context<'_>)
    requires
        run.valid(cx),
    ensures
        run.start().channel.taken.len() <= run.now().channel.taken.len(),
        run.replies.len() <= 2 * (run.now().channel.taken.len()
            - run.start().channel.taken.len()) + 6,
{
    lemma_poll_is_short(run, cx);
}

/// The stream ends only when there is no task to run and none to come. All that came have
/// finished then.
pub proof fn law_stream_ends_with_its_tasks<F, V>(run: PollRun<F, V>, cx: Context<'_>)
    requires
        run.valid(cx),
        run.start().accounted(),
        run.step() == (PollStep::<F, V>::Done { polled: Poll::Ready(None) }),
    ensures
        run.now().channel.ended,
        run.now().tasks.ended,
        run.now().tasks.running == Multiset::<F>::empty(),
        run.now().tasks.finished == run.now().channel.taken.to_multiset(),
{
    run.lemma_inv(cx);
    run.lemma_tasks_inv(cx);
    assert(run.now().tasks.running.add(run.now().tasks.finished) =~= run.now().tasks.finished);
}

/// A poll that leaves its task waiting leaves it to be woken: by the channel, unless that has
/// ended, and by the tasks, unless those have; and by one of them in any case.
pub proof fn law_pending_poll_will_be_woken<F, V>(run: PollRun<F, V>, cx: Context<'_>)
    requires
        run.valid(cx),
        run.step() == (PollStep::<F, V>::Done { polled: Poll::Pending }),
    ensures
        run.now().channel.ended || run.now().channel_wakes(cx),
        run.now().tasks.ended || run.now().tasks_wake(cx),
        run.now().channel_wakes(cx) || run.now().tasks_wake(cx),
{
    run.lemma_inv(cx);
}

/// An output of the stream is the output of a task, which has finished by that; and by a poll
/// without an output no task finishes.
pub proof fn law_outputs_come_from_tasks<F, V>(run: PollRun<F, V>, cx: Context<'_>)
    requires
        run.valid(cx),
        run.start().accounted(),
        run.step() is Done,
    ensures
        match run.step()->polled {
            Poll::Ready(Some(val)) => {
                &&& run.replies.last() == PollReply::<F, V>::Ran(Poll::Ready(Some(val)))
                &&& exists|task: F|
                    run.now().tasks.finished == #[trigger] run.start().tasks.finished.insert(task)
            },
            _ => run.now().tasks.finished == run.start().tasks.finished,
        },
{
    run.lemma_inv(cx);
    run.lemma_tasks_inv(cx);
}

/// No task is lost: every task that the channel gives is added to those that run before anything
/// else is asked, and after it every task that ever came runs or has finished.
pub proof fn law_no_task_is_lost<F, V>(run: PollRun<F, V>, cx: Context<'_>)
    requires
        run.valid(cx),
        run.start().accounted(),
        run.step() !is Push,
    ensures
        forall|i: int|
            #![trigger run.replies[i]]
            0 <= i < run.replies.len() ==> (run.replies[i] matches PollReply::Received(
                Poll::Ready(Some(task)),
            ) ==> i + 1 < run.replies.len() && run.steps[i + 1] == (PollStep::<F, V>::Push { task })
                && run.replies[i + 1] is Pushed),
        run.now().accounted(),
{
    run.lemma_tasks_inv(cx);
}

/// A stream that has ended stays so, and no poll of it gives an output.
pub proof fn law_ended_stream_stays_ended<F, V>(run: PollRun<F, V>, cx: Context<'_>)
    requires
        run.valid(cx),
        run.step() is Done,
        run.start().channel.ended,
        run.start().tasks.ended,
    ensures
        !run.has_output(),
        run.now().channel == run.start().channel,
        run.now().tasks.ended,
{
    // The channel has ended, so the tasks are polled, and that ends the poll.
    assert(run.replies[0] == PollReply::<F, V>::Ended(true));
    assert(run.replies[1] is Ran);
    assert(run.replies.len() > 2 ==> run.steps[2].accepts(run.replies[2]));
}

/// The polls of a pool from its first on, each of them from where the one before it ended.
pub open spec fn are_polls<F, V>(polls: Seq<PollRun<F, V>>) -> bool
    decreases polls.len(),
{
    polls.len() > 0 ==> {
        let before = polls.drop_last();
        let last = polls.last();
        &&& are_polls(before)
        &&& last.step() is Done
        &&& exists|cx: Context<'_>| #[trigger] last.valid(cx)
        &&& if before.len() > 0 {
            last.start() == before.last().now()
        } else {
            last.start().accounted() && last.start().tasks.finished == Multiset::<F>::empty()
        }
    }
}

/// The number of outputs that the polls gave.
pub open spec fn outputs<F, V>(polls: Seq<PollRun<F, V>>) -> nat
    decreases polls.len(),
{
    if polls.len() == 0 {
        0
    } else {
        outputs(polls.drop_last()) + if polls.last().has_output() {
            1nat
        } else {
            0
        }
    }
}

/// Every task gives its output exactly once: over the polls of a pool there are as many outputs
/// as tasks that have finished, and once the stream has ended, as many as tasks that came.
pub proof fn law_every_task_gives_one_output<F, V>(polls: Seq<PollRun<F, V>>)
    requires
        are_polls(polls),
        polls.len() > 0,
    ensures
        polls.last().now().accounted(),
        outputs(polls) == polls.last().now().tasks.finished.len(),
        outputs(polls) + polls.last().now().tasks.running.len()
            == polls.last().now().channel.taken.len(),
        polls.last().step() == (PollStep::<F, V>::Done { polled: Poll::Ready(None) })
            ==> outputs(polls) == polls.last().now().channel.taken.len(),
    decreases polls.len(),
{
    broadcast use vstd::seq_lib::group_to_multiset_ensures;
    broadcast use vstd::multiset::group_multiset_properties;

    let last = polls.last();
    let before = polls.drop_last();
    if before.len() > 0 {
        law_every_task_gives_one_output(before);
    } else {
        assert(outputs(before) == 0);
    }
    let cx = choose|cx: Context<'_>| #[trigger] last.valid(cx);
    law_outputs_come_from_tasks(last, cx);
    law_no_task_is_lost(last, cx);
    assert(last.now().channel.taken.len() == last.now().channel.taken.to_multiset().len());
    if last.step()->polled matches Poll::Ready(None) {
        law_stream_ends_with_its_tasks(last, cx);
    }
}

} // verus!
