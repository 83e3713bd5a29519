//! The dispatch queue: one unbounded FIFO stream of messages with a producer
//! end and a consumer end that several workers share.

use vstd::prelude::*;
use std::collections::VecDeque;
use crate::message::Message;

verus! {

/// The mathematical state of a dispatch queue.
#[verifier::ext_equal]
pub struct QueueView<T> {
    /// The messages sent and not yet received, oldest first.
    pub pending: Seq<Message<T>>,
    /// Whether the producer end is still held.
    pub sender_open: bool,
    /// How many workers still share the consumer end. The consumer end is
    /// gone once this reaches zero.
    pub receivers: nat,
}

/// What one poll of the consumer end yields.
#[derive(Debug, PartialEq, Eq)]
pub enum Received<T> {
    /// The oldest pending message, now removed from the queue.
    Message(Message<T>),
    /// Nothing is pending, but the producer may still send.
    Empty,
    /// Nothing is pending and nothing will ever be sent again.
    Disconnected,
}

/// An unbounded FIFO channel of [`Message`]s.
pub struct DispatchQueue<T> {
    items: VecDeque<Message<T>>,
    sender_open: bool,
    receivers: usize,
}

impl<T> View for DispatchQueue<T> {
    type V = QueueView<T>;

    closed spec fn view(&self) -> QueueView<T> {
        QueueView {
            pending: self.items@,
            sender_open: self.sender_open,
            receivers: self.receivers as nat,
        }
    }
}

impl<T> DispatchQueue<T> {
    /// An empty queue whose producer end is held and whose consumer end is
    /// shared by `receivers` workers.
    pub fn new(receivers: usize) -> (q: Self)
        ensures
            q@ == (QueueView::<T> {
                pending: Seq::empty(),
                sender_open: true,
                receivers: receivers as nat,
            }),
    {
        DispatchQueue { items: VecDeque::new(), sender_open: true, receivers }
    }

    /// Appends `msg` behind everything already pending. Sending needs the
    /// producer end and a consumer end to send to.
    pub fn send(&mut self, msg: Message<T>)
        requires
            old(self)@.sender_open,
            old(self)@.receivers > 0,
        ensures
            final(self)@ == (QueueView { pending: old(self)@.pending.push(msg), ..old(self)@ }),
    {
        self.items.push_back(msg);
    }

    /// Polls the consumer end once: removes and returns the oldest pending
    /// message if there is one, and otherwise says whether more can come.
    pub fn try_recv(&mut self) -> (r: Received<T>)
        ensures
            match r {
                Received::Message(m) => {
                    &&& old(self)@.pending.len() > 0
                    &&& m == old(self)@.pending[0]
                    &&& final(self)@ == (QueueView {
                        pending: old(self)@.pending.skip(1),
                        ..old(self)@
                    })
                },
                Received::Empty => {
                    &&& old(self)@.pending.len() == 0
                    &&& old(self)@.sender_open
                    &&& final(self)@ == old(self)@
                },
                Received::Disconnected => {
                    &&& old(self)@.pending.len() == 0
                    &&& !old(self)@.sender_open
                    &&& final(self)@ == old(self)@
                },
            },
    {
        match self.items.pop_front() {
            Some(m) => Received::Message(m),
            None => {
                if self.sender_open {
                    Received::Empty
                } else {
                    Received::Disconnected
                }
            },
        }
    }

    /// Gives up the producer end. Pending messages stay receivable.
    pub fn close_sender(&mut self)
        ensures
            final(self)@ == (QueueView { sender_open: false, ..old(self)@ }),
    {
        self.sender_open = false;
    }

    /// One worker gives up its share of the consumer end.
    pub fn release_receiver(&mut self)
        requires
            old(self)@.receivers > 0,
        ensures
            final(self)@ == (QueueView {
                receivers: (old(self)@.receivers - 1) as nat,
                ..old(self)@
            }),
    {
        self.receivers = self.receivers - 1;
    }

    /// The number of pending messages.
    pub fn len(&self) -> (n: usize)
        ensures
            n == self@.pending.len(),
    {
        self.items.len()
    }

    /// Whether the producer end is still held.
    pub fn sender_open(&self) -> (b: bool)
        ensures
            b == self@.sender_open,
    {
        self.sender_open
    }

    /// How many workers still share the consumer end.
    pub fn receivers(&self) -> (n: usize)
        ensures
            n == self@.receivers,
    {
        self.receivers
    }
}

} // verus!
