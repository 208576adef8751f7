use futures::future::LocalBoxFuture;
use futures::task::noop_waker;
use guest::collections::ShareBox;
use guest::{Anchor, Pool};
use std::future::Future;
use std::sync::atomic::{AtomicU32, Ordering};
use std::task::{Context, Poll};

fn poll_next<F: Future>(pool: &mut Pool<F>, cx: &mut Context<'_>) -> Poll<Option<F::Output>> {
    match pool.poll_within(cx, usize::MAX) {
        Some(polled) => polled,
        None => panic!("the limit came first"),
    }
}

#[test]
fn lib_vibe_check() {
    let waker = noop_waker();
    let mut cx = Context::from_waker(&waker);
    let mut x: u32 = 0;
    {
        let mut anchor = Anchor::<LocalBoxFuture<'_, &mut u32>>::new();
        let rx = &mut x;
        anchor
            .spawn(Box::pin(async move {
                *rx += 1;
                rx
            }))
            .unwrap();
        {
            let mut stream = anchor.stream();
            let mut outputs: Vec<&mut u32> = Vec::new();
            loop {
                match poll_next(&mut stream, &mut cx) {
                    Poll::Ready(Some(ref_mut)) => outputs.push(ref_mut),
                    Poll::Ready(None) => break,
                    Poll::Pending => {}
                }
            }
            for ref_mut in outputs {
                *ref_mut += 2;
            }
        }
    }
    assert_eq!(x, 3)
}

#[test]
fn collections_vibe_check() {
    let waker = noop_waker();
    let mut cx = Context::from_waker(&waker);
    let (mut counter, reference) = ShareBox::<AtomicU32>::new_with_ref(0.into());
    let first = reference.clone(counter.memory());
    let second = reference.clone(counter.memory());
    let third = reference.clone(counter.memory());
    assert!(counter.poll(&mut cx).is_pending());
    for this_reference in [first, second, third] {
        this_reference.deref(counter.memory()).fetch_add(1, Ordering::Relaxed);
        this_reference.drop(counter.memory());
        assert!(counter.poll(&mut cx).is_pending());
    }
    reference.drop(counter.memory());
    match counter.poll(&mut cx) {
        Poll::Ready(val) => assert_eq!(val.into_inner(), 3),
        Poll::Pending => panic!("every reference is gone"),
    }
}
