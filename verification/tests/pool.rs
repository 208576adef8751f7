use futures::channel::oneshot;
use futures::future::LocalBoxFuture;
use futures::task::noop_waker;
use guest::pool::{spawned, PollReply, PollStep};
use guest::{Anchor, Pool, SpawnError};
use std::future::Future;
use std::task::{Context, Poll};

fn poll_next<F: Future>(pool: &mut Pool<F>, cx: &mut Context<'_>) -> Poll<Option<F::Output>> {
    match pool.poll_within(cx, usize::MAX) {
        Some(polled) => polled,
        None => panic!("the limit came first"),
    }
}

#[test]
fn empty_pool_ends() {
    let waker = noop_waker();
    let mut cx = Context::from_waker(&waker);
    let mut pool = Anchor::<LocalBoxFuture<'_, u8>>::new().stream();
    assert!(!pool.is_terminated());
    assert_eq!(poll_next(&mut pool, &mut cx), Poll::Ready(None));
    assert!(pool.is_terminated());
    assert_eq!(poll_next(&mut pool, &mut cx), Poll::Ready(None));
    assert!(pool.is_terminated());
}

#[test]
fn outputs_come_and_then_the_end() {
    let waker = noop_waker();
    let mut cx = Context::from_waker(&waker);
    let mut anchor = Anchor::<LocalBoxFuture<'_, u8>>::new();
    for n in 0..4u8 {
        assert_eq!(anchor.spawn(Box::pin(async move { n * n })), Ok(()));
    }
    let mut pool = anchor.stream();
    let mut outputs = Vec::new();
    while let Poll::Ready(Some(output)) = poll_next(&mut pool, &mut cx) {
        outputs.push(output);
    }
    outputs.sort();
    assert_eq!(outputs, vec![0, 1, 4, 9]);
    assert!(pool.is_terminated());
}

#[test]
fn pool_waits_for_spawners_and_for_tasks() {
    let waker = noop_waker();
    let mut cx = Context::from_waker(&waker);
    let anchor = Anchor::<LocalBoxFuture<'_, u8>>::new();
    let mut spawner = anchor.spawner.clone();
    let mut pool = anchor.stream();
    assert_eq!(poll_next(&mut pool, &mut cx), Poll::Pending);
    assert_eq!(poll_next(&mut pool, &mut cx), Poll::Pending);
    let (sender, receiver) = oneshot::channel::<u8>();
    let task = Box::pin(async move { receiver.await.unwrap_or(0) });
    assert_eq!(spawner.spawn(task), Ok(()));
    drop(spawner);
    assert_eq!(poll_next(&mut pool, &mut cx), Poll::Pending);
    assert_eq!(poll_next(&mut pool, &mut cx), Poll::Pending);
    assert!(!pool.is_terminated());
    sender.send(8).unwrap();
    assert_eq!(poll_next(&mut pool, &mut cx), Poll::Ready(Some(8)));
    assert_eq!(poll_next(&mut pool, &mut cx), Poll::Ready(None));
    assert!(pool.is_terminated());
}

#[test]
fn spawning_fails_without_a_pool() {
    let anchor = Anchor::<LocalBoxFuture<'_, u8>>::new();
    let mut spawner = anchor.spawner.clone();
    drop(anchor);
    match spawner.spawn(Box::pin(async { 1 })) {
        Ok(()) => panic!("the pool is gone"),
        Err(error) => assert!(error.cause.is_disconnected()),
    }
}

#[test]
fn spawn_goes_by_the_send() {
    assert_eq!(spawned(Ok(())), Ok(()));
    let (mut sender, receiver) = futures::channel::mpsc::unbounded::<u8>();
    drop(receiver);
    let sent = sender.start_send(1);
    let cause = sent.clone().unwrap_err();
    assert_eq!(spawned(sent), Err(SpawnError { cause }));
}

#[test]
fn steps_follow_the_replies() {
    type Step = PollStep<char, u8>;
    type Reply = PollReply<char, u8>;
    assert!(matches!(Step::Start.resume(Reply::Ended(true)), Step::Delegate));
    assert!(matches!(Step::Start.resume(Reply::Ended(false)), Step::Drain));
    assert!(matches!(
        Step::Delegate.resume(Reply::Ran(Poll::Ready(Some(3)))),
        Step::Done { polled: Poll::Ready(Some(3)) }
    ));
    assert!(matches!(
        Step::Drain.resume(Reply::Received(Poll::Ready(Some('t')))),
        Step::Push { task: 't' }
    ));
    assert!(matches!(Step::Drain.resume(Reply::Received(Poll::Ready(None))), Step::Closed));
    assert!(matches!(Step::Drain.resume(Reply::Received(Poll::Pending)), Step::Check));
    assert!(matches!(Step::Push { task: 't' }.resume(Reply::Pushed), Step::Drain));
    assert!(matches!(
        Step::Closed.resume(Reply::Ended(true)),
        Step::Done { polled: Poll::Ready(None) }
    ));
    assert!(matches!(Step::Closed.resume(Reply::Ended(false)), Step::Check));
    assert!(matches!(
        Step::Check.resume(Reply::Ended(true)),
        Step::Done { polled: Poll::Pending }
    ));
    assert!(matches!(Step::Check.resume(Reply::Ended(false)), Step::Run));
    assert!(matches!(
        Step::Run.resume(Reply::Ran(Poll::Ready(Some(4)))),
        Step::Done { polled: Poll::Ready(Some(4)) }
    ));
    assert!(matches!(
        Step::Run.resume(Reply::Ran(Poll::Pending)),
        Step::Done { polled: Poll::Pending }
    ));
    assert!(matches!(Step::Run.resume(Reply::Ran(Poll::Ready(None))), Step::Idle));
    assert!(matches!(
        Step::Idle.resume(Reply::Ended(true)),
        Step::Done { polled: Poll::Ready(None) }
    ));
    assert!(matches!(
        Step::Idle.resume(Reply::Ended(false)),
        Step::Done { polled: Poll::Pending }
    ));
}

#[test]
fn received_tasks_run() {
    let waker = noop_waker();
    let mut cx = Context::from_waker(&waker);
    let mut anchor = Anchor::<LocalBoxFuture<'_, u8>>::new();
    anchor.spawn(Box::pin(async { 7 })).unwrap();
    let mut pool = anchor.stream();
    let step = pool.poll_next(&mut cx, PollStep::Start);
    assert!(matches!(step, PollStep::Drain));
    let step = pool.poll_next(&mut cx, step);
    assert!(matches!(step, PollStep::Push { .. }));
    let step = pool.poll_next(&mut cx, step);
    assert!(matches!(step, PollStep::Drain));
    let step = pool.poll_next(&mut cx, step);
    assert!(matches!(step, PollStep::Closed));
    let step = pool.poll_next(&mut cx, step);
    assert!(matches!(step, PollStep::Check));
    let step = pool.poll_next(&mut cx, step);
    assert!(matches!(step, PollStep::Run));
    let step = pool.poll_next(&mut cx, step);
    assert!(matches!(step, PollStep::Done { polled: Poll::Ready(Some(7)) }));
}

#[test]
fn limited_polls_lose_nothing() {
    let waker = noop_waker();
    let mut cx = Context::from_waker(&waker);
    for limit in 0..5usize {
        let mut anchor = Anchor::<LocalBoxFuture<'_, u8>>::new();
        for n in 0..10u8 {
            anchor.spawn(Box::pin(async move { n })).unwrap();
        }
        let mut pool = anchor.stream();
        // The channel is not drained within so few steps.
        assert!(pool.poll_within(&mut cx, limit).is_none());
        assert!(pool.poll_within(&mut cx, limit).is_none());
        let mut outputs = Vec::new();
        while let Poll::Ready(Some(output)) = poll_next(&mut pool, &mut cx) {
            outputs.push(output);
        }
        outputs.sort();
        assert_eq!(outputs, (0..10u8).collect::<Vec<u8>>());
        assert_eq!(pool.poll_within(&mut cx, 2), Some(Poll::Ready(None)));
    }
}
