//! What the library takes for granted of the channel that brings tasks to a pool.
//!
//! Each half of the channel goes with a record of what is known of it. The functions here that
//! call the outside channel keep the record, and there is no other way to make a half or to
//! change one.
use futures::channel::mpsc::{SendError, UnboundedReceiver, UnboundedSender};
use futures::stream::FusedStream;
use futures::StreamExt;
use std::task::{Context, Poll, Waker};
use vstd::prelude::*;

verus! {

/// The receiving half of an unbounded channel, carried without a look inside.
#[verifier::external_type_specification]
#[verifier::external_body]
#[verifier::reject_recursive_types(T)]
pub struct ExUnboundedReceiver<T>(UnboundedReceiver<T>);

/// The sending half of an unbounded channel, carried without a look inside.
#[verifier::external_type_specification]
#[verifier::external_body]
#[verifier::reject_recursive_types(T)]
pub struct ExUnboundedSender<T>(UnboundedSender<T>);

/// The error of a send, carried without a look inside.
#[verifier::external_type_specification]
#[verifier::external_body]
pub struct ExSendError(SendError);

/// What is known of a sending half.
pub struct OutboxView<F> {
    /// The channel that it belongs to.
    pub channel: int,
    /// What it has put in the channel, in order.
    pub sent: Seq<F>,
}

/// What is known of a receiving half.
pub struct InboxView<F> {
    /// The channel that it belongs to.
    pub channel: int,
    /// What it has taken out of the channel, in order.
    pub taken: Seq<F>,
    /// Whether it has given the end of the channel.
    pub ended: bool,
    /// The waker of the last poll that had to wait.
    pub waits: Option<Waker>,
}

/// What a poll in the context `cx` that gives `polled` makes of a receiving half.
///
/// It takes the next message, or gives the end, or has to wait and leaves the waker of its
/// context to be woken. A half that has given the end gives it again.
pub open spec fn polled_half<F>(
    before: InboxView<F>,
    after: InboxView<F>,
    cx: Context<'_>,
    polled: Poll<Option<F>>,
) -> bool {
    match polled {
        Poll::Ready(Some(message)) => {
            &&& !before.ended
            &&& after == (InboxView { taken: before.taken.push(message), ..before })
        },
        Poll::Ready(None) => after == (InboxView { ended: true, ..before }),
        Poll::Pending => {
            &&& !before.ended
            &&& after == (InboxView { waits: after.waits, ..before })
            &&& after.waits matches Some(waker) && crate::wakers::lent_by(cx, waker)
        },
    }
}

/// The sending half of a channel.
#[verifier::reject_recursive_types(F)]
pub struct Outbox<F> {
    half: UnboundedSender<F>,
    known: Ghost<OutboxView<F>>,
}

/// The receiving half of a channel.
#[verifier::reject_recursive_types(F)]
pub struct Inbox<F> {
    half: UnboundedReceiver<F>,
    known: Ghost<InboxView<F>>,
}

impl<F> View for Outbox<F> {
    type V = OutboxView<F>;

    closed spec fn view(&self) -> OutboxView<F> {
        self.known@
    }
}

impl<F> View for Inbox<F> {
    type V = InboxView<F>;

    closed spec fn view(&self) -> InboxView<F> {
        self.known@
    }
}

/// `futures::channel::mpsc::unbounded`: a new channel. It is claimed that its two halves belong
/// together, that nothing was sent or taken, and that the end was not given.
#[verifier::external_body]
pub(crate) fn new_channel<F>() -> (halves: (Outbox<F>, Inbox<F>))
    ensures
        halves.0@.channel == halves.1@.channel,
        halves.0@.sent == Seq::<F>::empty(),
        halves.1@.taken == Seq::<F>::empty(),
        !halves.1@.ended,
        halves.1@.waits is None,
{
    let (sender, receiver) = futures::channel::mpsc::unbounded();
    (
        Outbox { half: sender, known: Ghost(vstd::pervasive::arbitrary()) },
        Inbox { half: receiver, known: Ghost(vstd::pervasive::arbitrary()) },
    )
}

impl<F> Outbox<F> {
    /// `UnboundedSender::start_send`: puts a message in the channel, or fails where the receiving
    /// half is gone. It is claimed that a message that was accepted, and no other, was put there.
    /// Which of the two comes rests on the other half, so nothing is claimed of it.
    #[verifier::external_body]
    pub(crate) fn start_send(&mut self, message: F) -> (sent: Result<(), SendError>)
        ensures
            sent is Ok ==> final(self)@ == (OutboxView {
                sent: old(self)@.sent.push(message),
                ..old(self)@
            }),
            sent is Err ==> final(self)@ == old(self)@,
    {
        self.half.start_send(message)
    }

    /// `UnboundedSender::clone`: one more sending half of the same channel, which has sent
    /// nothing by itself.
    #[verifier::external_body]
    pub(crate) fn another(&self) -> (other: Outbox<F>)
        ensures
            other@ == (OutboxView { sent: Seq::empty(), ..self@ }),
    {
        Outbox { half: self.half.clone(), known: Ghost(vstd::pervasive::arbitrary()) }
    }
}

impl<F> Inbox<F> {
    /// `UnboundedReceiver::is_terminated`: whether the end of the channel was given.
    #[verifier::external_body]
    pub(crate) fn is_terminated(&self) -> (ended: bool)
        ensures
            ended == self@.ended,
    {
        self.half.is_terminated()
    }

    /// `UnboundedReceiver::poll_next_unpin`: the next message, which rests on the senders. It
    /// is claimed what becomes of the half. The context is only read.
    #[verifier::external_body]
    pub(crate) fn poll(&mut self, cx: &mut Context<'_>) -> (polled: Poll<Option<F>>)
        ensures
            *final(cx) == *old(cx),
            polled_half(old(self)@, final(self)@, *old(cx), polled),
    {
        self.half.poll_next_unpin(cx)
    }
}

} // verus!
