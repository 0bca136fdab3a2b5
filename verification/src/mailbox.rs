use vstd::prelude::*;

verus! {

/// Capacity of a mailbox built by the process factory.
pub const DEFAULT_CAPACITY: usize = 100;

/// What an enqueue attempt did.
#[derive(Debug, PartialEq, Eq, Structural)]
pub enum SendOutcome {
    /// The message entered the queue.
    Enqueued,
    /// The queue stands at capacity and refused the message: nothing entered
    /// it. In a concurrent embedding the sender suspends and offers the
    /// message again once the backlog drains; here the refused value is
    /// consumed with the call, so a retrying caller supplies it anew.
    Full,
    /// The receiving end is gone: no process remains to take the message.
    Closed,
}

/// What a dequeue attempt did.
pub enum RecvOutcome<M> {
    /// The oldest pending message.
    Received(M),
    /// Nothing pending, but senders remain: a concurrent receiver suspends.
    Empty,
    /// Nothing pending and every sending handle has been dropped: the queue
    /// will never hold another message.
    Disconnected,
}

/// A bounded, ordered queue of inbound messages belonging to one process.
///
/// The view of a mailbox is the sequence of pending messages, oldest first.
/// Enqueues append at the back, dequeues take from the front, so delivery
/// from a single sender is first-in first-out.
pub struct Mailbox<M> {
    queue: Vec<M>,
    capacity: usize,
    senders: usize,
    receiver_open: bool,
}

impl<M> View for Mailbox<M> {
    type V = Seq<M>;

    closed spec fn view(&self) -> Seq<M> {
        self.queue@
    }
}

impl<M> Mailbox<M> {
    /// The fixed capacity the mailbox was made with.
    pub closed spec fn cap(&self) -> int {
        self.capacity as int
    }

    /// How many sending handles are still alive.
    pub closed spec fn sender_count(&self) -> int {
        self.senders as int
    }

    /// Whether the receiving end still exists.
    pub closed spec fn receiver_open(&self) -> bool {
        self.receiver_open
    }

    /// A mailbox never holds more than its capacity, and the capacity is at
    /// least one.
    pub open spec fn wf(&self) -> bool {
        &&& self@.len() <= self.cap()
        &&& self.cap() >= 1
        &&& self.sender_count() >= 0
    }

    /// Builds an empty mailbox with one sending handle and a live receiver.
    pub fn new(capacity: usize) -> (r: Self)
        requires
            capacity >= 1,
        ensures
            r.wf(),
            r@ == Seq::<M>::empty(),
            r.cap() == capacity,
            r.sender_count() == 1,
            r.receiver_open(),
    {
        Mailbox { queue: Vec::new(), capacity, senders: 1, receiver_open: true }
    }

    /// Records one more sending handle (a handle was cloned).
    pub fn add_sender(&mut self)
        requires
            old(self).sender_count() < usize::MAX,
        ensures
            final(self)@ == old(self)@,
            final(self).cap() == old(self).cap(),
            final(self).sender_count() == old(self).sender_count() + 1,
            final(self).receiver_open() == old(self).receiver_open(),
    {
        self.senders = self.senders + 1;
    }

    /// Records that one sending handle was dropped.
    pub fn drop_sender(&mut self)
        requires
            old(self).sender_count() >= 1,
        ensures
            final(self)@ == old(self)@,
            final(self).cap() == old(self).cap(),
            final(self).sender_count() == old(self).sender_count() - 1,
            final(self).receiver_open() == old(self).receiver_open(),
    {
        self.senders = self.senders - 1;
    }

    /// Offers a message to the queue on behalf of a sending handle.
    ///
    /// While the receiver lives, the message enters at the back whenever room
    /// remains, and a full queue turns the sender away without taking
    /// anything; once the receiver is gone the queue takes nothing at all.
    pub fn enqueue(&mut self, m: M) -> (r: SendOutcome)
        requires
            old(self).wf(),
        ensures
            final(self).wf(),
            final(self).cap() == old(self).cap(),
            final(self).sender_count() == old(self).sender_count(),
            final(self).receiver_open() == old(self).receiver_open(),
            !old(self).receiver_open() ==> r == SendOutcome::Closed && final(self)@ == old(self)@,
            old(self).receiver_open() && old(self)@.len() < old(self).cap() ==> r
                == SendOutcome::Enqueued && final(self)@ == old(self)@.push(m),
            old(self).receiver_open() && old(self)@.len() == old(self).cap() ==> r
                == SendOutcome::Full && final(self)@ == old(self)@,
    {
        if !self.receiver_open {
            SendOutcome::Closed
        } else if self.queue.len() < self.capacity {
            self.queue.push(m);
            SendOutcome::Enqueued
        } else {
            SendOutcome::Full
        }
    }

    /// Takes the oldest pending message, if any; with nothing pending, says
    /// whether senders remain (the receiver would suspend) or the queue is
    /// disconnected for good.
    pub fn dequeue(&mut self) -> (r: RecvOutcome<M>)
        requires
            old(self).wf(),
        ensures
            final(self).wf(),
            final(self).cap() == old(self).cap(),
            final(self).sender_count() == old(self).sender_count(),
            final(self).receiver_open() == old(self).receiver_open(),
            old(self)@.len() > 0 ==> r == RecvOutcome::Received(old(self)@.first())
                && final(self)@ == old(self)@.drop_first(),
            old(self)@.len() == 0 ==> final(self)@ == old(self)@ && (if old(
                self,
            ).sender_count() > 0 {
                r is Empty
            } else {
                r is Disconnected
            }),
    {
        if self.queue.len() > 0 {
            let m = self.queue.remove(0);
            RecvOutcome::Received(m)
        } else if self.senders > 0 {
            RecvOutcome::Empty
        } else {
            RecvOutcome::Disconnected
        }
    }

    /// Drops the receiving end: the owning process is gone, and every later
    /// enqueue is turned away as closed.
    pub fn close_receiver(&mut self)
        ensures
            final(self)@ == old(self)@,
            final(self).cap() == old(self).cap(),
            final(self).sender_count() == old(self).sender_count(),
            !final(self).receiver_open(),
    {
        self.receiver_open = false;
    }

    /// How many messages wait in the queue.
    pub fn len(&self) -> (r: usize)
        ensures
            r == self@.len(),
    {
        self.queue.len()
    }

    /// The fixed capacity.
    pub fn capacity(&self) -> (r: usize)
        ensures
            r == self.cap(),
    {
        self.capacity
    }

    /// Whether the queue stands at capacity.
    pub fn is_full(&self) -> (r: bool)
        ensures
            r == (self@.len() == self.cap()),
    {
        self.queue.len() == self.capacity
    }

    /// How many sending handles are alive.
    pub fn sender_count_exec(&self) -> (r: usize)
        ensures
            r == self.sender_count(),
    {
        self.senders
    }

    /// Whether the receiving end still exists.
    pub fn is_open(&self) -> (r: bool)
        ensures
            r == self.receiver_open(),
    {
        self.receiver_open
    }
}

} // verus!
