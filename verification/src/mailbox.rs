//! Bounded, ordered, typed mailboxes: the unit of communication between
//! actors.
//!
//! A mailbox owns a bounded FIFO queue. Many sender handles may feed it, one
//! receiver drains it. This module is the model of that channel: each
//! operation is total and reports `WouldBlock` where a runtime would suspend
//! the caller (a send on a full queue, a receive on an empty one while
//! senders are still alive), so that the executable layer around this crate
//! can map `WouldBlock` to an actual suspension without taking any decision
//! of its own.

use vstd::prelude::*;

verus! {

/// What a send did to the mailbox.
#[derive(Debug)]
pub enum SendOutcome<T> {
    /// The message was enqueued at the back of the queue.
    Sent,
    /// The queue is full; the message comes back so that a runtime can
    /// suspend the sender and retry it once capacity frees up. The
    /// mailbox is unchanged.
    WouldBlock(T),
    /// The receiver is gone; this link is terminally closed.
    Closed,
}

/// What a receive observed.
#[derive(Debug)]
pub enum RecvOutcome<T> {
    /// The oldest queued message.
    Received(T),
    /// Nothing queued, but senders are alive; a runtime suspends the
    /// receiver until a message arrives or the last sender is dropped.
    WouldBlock,
    /// Nothing queued and every sender has been dropped: graceful
    /// end of stream.
    EndOfStream,
}

/// A bounded, ordered, typed channel between some senders and one receiver.
pub struct Mailbox<T> {
    queue: Vec<T>,
    capacity: usize,
    senders: usize,
    receiver_live: bool,
}

impl<T> Mailbox<T> {
    /// The queued messages, oldest first.
    pub closed spec fn contents(self) -> Seq<T> {
        self.queue@
    }

    /// The fixed capacity chosen at creation.
    pub closed spec fn spec_capacity(self) -> nat {
        self.capacity as nat
    }

    /// How many sender handles are alive.
    pub closed spec fn senders(self) -> nat {
        self.senders as nat
    }

    /// Whether the receiving side still exists.
    pub closed spec fn receiver_live(self) -> bool {
        self.receiver_live
    }

    /// The queue never exceeds the capacity.
    pub open spec fn wf(self) -> bool {
        self.contents().len() <= self.spec_capacity()
    }

    /// A fresh mailbox with one sender and a live receiver.
    pub fn new(capacity: usize) -> (m: Mailbox<T>)
        ensures
            m.wf(),
            m.contents() == Seq::<T>::empty(),
            m.spec_capacity() == capacity,
            m.senders() == 1,
            m.receiver_live(),
    {
        Mailbox { queue: Vec::new(), capacity, senders: 1, receiver_live: true }
    }

    pub fn capacity(&self) -> (c: usize)
        ensures
            c == self.spec_capacity(),
    {
        self.capacity
    }

    pub fn len(&self) -> (n: usize)
        ensures
            n == self.contents().len(),
    {
        self.queue.len()
    }

    /// Enqueue `message`, unless the queue is full or the receiver is gone.
    ///
    /// Messages sent by a single sender and accepted are delivered in send
    /// order: each accepted send appends at the back and `receive` takes
    /// from the front.
    pub fn send(&mut self, message: T) -> (r: SendOutcome<T>)
        requires
            old(self).wf(),
        ensures
            final(self).wf(),
            final(self).spec_capacity() == old(self).spec_capacity(),
            final(self).senders() == old(self).senders(),
            final(self).receiver_live() == old(self).receiver_live(),
            !old(self).receiver_live() ==> r is Closed && final(self).contents() == old(
                self,
            ).contents(),
            old(self).receiver_live() && old(self).contents().len() == old(
                self,
            ).spec_capacity() ==> (r matches SendOutcome::WouldBlock(m) && m == message)
                && final(self).contents() == old(self).contents(),
            old(self).receiver_live() && old(self).contents().len() < old(self).spec_capacity()
                ==> r is Sent && final(self).contents() == old(self).contents().push(message),
    {
        if !self.receiver_live {
            SendOutcome::Closed
        } else if self.queue.len() == self.capacity {
            SendOutcome::WouldBlock(message)
        } else {
            self.queue.push(message);
            SendOutcome::Sent
        }
    }

    /// Take the oldest message; report end of stream only once the queue is
    /// drained and every sender has been dropped.
    pub fn receive(&mut self) -> (r: RecvOutcome<T>)
        requires
            old(self).wf(),
        ensures
            final(self).wf(),
            final(self).spec_capacity() == old(self).spec_capacity(),
            final(self).senders() == old(self).senders(),
            final(self).receiver_live() == old(self).receiver_live(),
            old(self).contents().len() > 0 ==> r == RecvOutcome::Received(
                old(self).contents()[0],
            ) && final(self).contents() == old(self).contents().drop_first(),
            old(self).contents().len() == 0 && old(self).senders() > 0 ==> r
                == RecvOutcome::<T>::WouldBlock && final(self).contents() == old(self).contents(),
            old(self).contents().len() == 0 && old(self).senders() == 0 ==> r
                == RecvOutcome::<T>::EndOfStream && final(self).contents() == old(self).contents(),
    {
        if self.queue.len() > 0 {
            let message = self.queue.remove(0);
            RecvOutcome::Received(message)
        } else if self.senders > 0 {
            RecvOutcome::WouldBlock
        } else {
            RecvOutcome::EndOfStream
        }
    }

    /// Hand out one more sender handle.
    pub fn clone_sender(&mut self)
        requires
            old(self).wf(),
            old(self).senders() < usize::MAX,
        ensures
            final(self).wf(),
            final(self).contents() == old(self).contents(),
            final(self).spec_capacity() == old(self).spec_capacity(),
            final(self).senders() == old(self).senders() + 1,
            final(self).receiver_live() == old(self).receiver_live(),
    {
        self.senders = self.senders + 1;
    }

    /// Drop one sender handle. Dropping the last one lets the receiver
    /// observe end of stream once the queue is drained: this is the orderly
    /// shutdown cascade.
    pub fn drop_sender(&mut self)
        requires
            old(self).wf(),
            old(self).senders() > 0,
        ensures
            final(self).wf(),
            final(self).contents() == old(self).contents(),
            final(self).spec_capacity() == old(self).spec_capacity(),
            final(self).senders() == old(self).senders() - 1,
            final(self).receiver_live() == old(self).receiver_live(),
    {
        self.senders = self.senders - 1;
    }

    /// Drop the receiving side; every later send observes `Closed`.
    pub fn drop_receiver(&mut self)
        requires
            old(self).wf(),
        ensures
            final(self).wf(),
            final(self).contents() == old(self).contents(),
            final(self).spec_capacity() == old(self).spec_capacity(),
            final(self).senders() == old(self).senders(),
            !final(self).receiver_live(),
    {
        self.receiver_live = false;
    }
}

/// A fault inside one actor's processing, reported on a runtime-error
/// mailbox of its own — a `Mailbox<RuntimeError>` — never on the
/// mailboxes that carry business messages. A supervisor consuming that
/// channel decides between restarting the actor and shutting the process
/// down; the faulty actor cannot corrupt any other actor's mailbox, since
/// actors share no mutable state.
#[derive(Debug)]
pub struct RuntimeError {
    /// The name of the actor that failed.
    pub actor: String,
    /// What its failure reported.
    pub message: String,
}

impl RuntimeError {
    pub fn new(actor: &str, message: &str) -> (r: RuntimeError)
        ensures
            r.actor@ == actor@,
            r.message@ == message@,
    {
        RuntimeError { actor: actor.to_owned(), message: message.to_owned() }
    }
}

/// Per-sender FIFO ordering. Three messages accepted in the order `m1`,
/// `m2`, `m3` stand behind whatever was queued before them, in that order;
/// since `receive` always takes the front of the queue, the receiver
/// observes them in send order.
pub proof fn lemma_mailbox_fifo<T>(q: Seq<T>, m1: T, m2: T, m3: T)
    ensures
        ({
            let after = q.push(m1).push(m2).push(m3);
            &&& after.len() == q.len() + 3
            &&& after[q.len() as int] == m1
            &&& after[q.len() as int + 1] == m2
            &&& after[q.len() as int + 2] == m3
        }),
{
}

} // verus!
