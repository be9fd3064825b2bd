//! A bounded channel that lives on one thread. It is the reference for what the harness
//! expects of a channel: a sender that finds the channel full is suspended, a receiver that
//! finds it empty is suspended while a sender is left, and told of the closure after that.
//! Suspension is an outcome here: the caller comes back later.

use std::collections::VecDeque;
use vstd::prelude::*;

verus! {

/// What became of a message that was offered to a channel.
#[derive(Debug, PartialEq, Eq)]
pub enum Sent<T> {
    /// The channel took the message.
    Accepted,
    /// The channel is full: the sender is suspended and keeps the message.
    Suspended(T),
}

/// What a receiver got from a channel.
#[derive(Debug, PartialEq, Eq)]
pub enum Received<T> {
    /// The message that waited longest.
    Message(T),
    /// The channel is empty and a sender is left: the receiver is suspended.
    Suspended,
    /// The channel is empty and no sender is left: the end of the stream.
    Closed,
}

/// A channel as plain values: its capacity, the messages that wait in it, the oldest first,
/// and the number of sender handles.
pub struct ChannelView<T> {
    pub capacity: nat,
    pub queue: Seq<T>,
    pub senders: nat,
}

impl<T> ChannelView<T> {
    /// The capacity is positive and never exceeded.
    pub open spec fn wf(self) -> bool {
        1 <= self.capacity && self.queue.len() <= self.capacity
    }

    /// A new channel: empty, with one sender handle.
    pub open spec fn fresh(capacity: nat) -> ChannelView<T> {
        ChannelView { capacity, queue: Seq::empty(), senders: 1 }
    }

    /// No room is left.
    pub open spec fn is_full(self) -> bool {
        self.queue.len() >= self.capacity
    }

    /// What a sender is told that offers a message.
    pub open spec fn send_outcome(self, message: T) -> Sent<T> {
        if self.is_full() {
            Sent::Suspended(message)
        } else {
            Sent::Accepted
        }
    }

    /// The channel after a message was offered: it goes to the end of the queue if there
    /// is room, and nothing changes if there is none.
    pub open spec fn after_send(self, message: T) -> ChannelView<T> {
        if self.is_full() {
            self
        } else {
            ChannelView { queue: self.queue.push(message), ..self }
        }
    }

    /// What a receiver is told.
    pub open spec fn recv_outcome(self) -> Received<T> {
        if self.queue.len() > 0 {
            Received::Message(self.queue[0])
        } else if self.senders > 0 {
            Received::Suspended
        } else {
            Received::Closed
        }
    }

    /// The channel after a receiver called: the oldest message is gone if there was one.
    pub open spec fn after_recv(self) -> ChannelView<T> {
        if self.queue.len() > 0 {
            ChannelView { queue: self.queue.drop_first(), ..self }
        } else {
            self
        }
    }

    /// The channel after the messages were offered one after the other.
    pub open spec fn after_sends(self, messages: Seq<T>) -> ChannelView<T>
        decreases messages.len(),
    {
        if messages.len() == 0 {
            self
        } else {
            self.after_sends(messages.drop_last()).after_send(messages.last())
        }
    }

    /// The channel after so many calls of a receiver.
    pub open spec fn after_recvs(self, calls: nat) -> ChannelView<T>
        decreases calls,
    {
        if calls == 0 {
            self
        } else {
            self.after_recvs((calls - 1) as nat).after_recv()
        }
    }
}

/// A bounded channel for one thread.
pub struct Channel<T> {
    capacity: usize,
    queue: VecDeque<T>,
    senders: usize,
}

impl<T> View for Channel<T> {
    type V = ChannelView<T>;

    closed spec fn view(&self) -> ChannelView<T> {
        ChannelView {
            capacity: self.capacity as nat,
            queue: self.queue@,
            senders: self.senders as nat,
        }
    }
}

impl<T> Channel<T> {
    /// An empty channel that holds up to `capacity` messages, with one sender handle.
    pub fn bounded(capacity: usize) -> (channel: Channel<T>)
        requires
            capacity >= 1,
        ensures
            channel@ == ChannelView::<T>::fresh(capacity as nat),
            channel@.wf(),
    {
        Channel { capacity, queue: VecDeque::new(), senders: 1 }
    }

    /// How many messages the channel can hold.
    pub fn capacity(&self) -> (capacity: usize)
        ensures
            capacity == self@.capacity,
    {
        self.capacity
    }

    /// How many messages wait in the channel.
    pub fn len(&self) -> (len: usize)
        ensures
            len == self@.queue.len(),
    {
        self.queue.len()
    }

    /// How many sender handles there are.
    pub fn senders(&self) -> (senders: usize)
        ensures
            senders == self@.senders,
    {
        self.senders
    }

    /// One more sender handle for the same channel.
    pub fn clone_sender(&mut self)
        requires
            old(self)@.senders < usize::MAX,
        ensures
            final(self)@ == (ChannelView { senders: old(self)@.senders + 1, ..old(self)@ }),
    {
        self.senders = self.senders + 1;
    }

    /// One sender handle less. When the last one is gone the channel closes for good.
    pub fn drop_sender(&mut self)
        requires
            old(self)@.senders >= 1,
        ensures
            final(self)@ == (ChannelView {
                senders: (old(self)@.senders - 1) as nat,
                ..old(self)@
            }),
    {
        self.senders = self.senders - 1;
    }

    /// Offers a message on behalf of a sender handle.
    pub fn send(&mut self, message: T) -> (outcome: Sent<T>)
        requires
            old(self)@.wf(),
            old(self)@.senders >= 1,
        ensures
            outcome == old(self)@.send_outcome(message),
            final(self)@ == old(self)@.after_send(message),
            final(self)@.wf(),
    {
        if self.queue.len() >= self.capacity {
            Sent::Suspended(message)
        } else {
            self.queue.push_back(message);
            Sent::Accepted
        }
    }

    /// Asks for the oldest message.
    pub fn recv(&mut self) -> (outcome: Received<T>)
        requires
            old(self)@.wf(),
        ensures
            outcome == old(self)@.recv_outcome(),
            final(self)@ == old(self)@.after_recv(),
            final(self)@.wf(),
    {
        match self.queue.pop_front() {
            Some(message) => {
                assert(self.queue@ == old(self).queue@.drop_first());
                Received::Message(message)
            },
            None => {
                if self.senders > 0 {
                    Received::Suspended
                } else {
                    Received::Closed
                }
            },
        }
    }
}

/// Into an empty channel go as many messages as it has capacity, in their order, and
/// then it is full.
pub proof fn lemma_fills_to_capacity<T>(channel: ChannelView<T>, messages: Seq<T>)
    requires
        channel.wf(),
        channel.queue.len() == 0,
        messages.len() <= channel.capacity,
    ensures
        channel.after_sends(messages) == (ChannelView { queue: messages, ..channel }),
        messages.len() == channel.capacity ==> channel.after_sends(messages).is_full(),
    decreases messages.len(),
{
    if messages.len() == 0 {
        assert(channel.queue =~= messages);
    } else {
        lemma_fills_to_capacity(channel, messages.drop_last());
        assert(messages.drop_last().push(messages.last()) =~= messages);
    }
}

/// Backpressure. A sender that offers one message more than a channel of any capacity
/// holds is suspended and changes nothing, however often it tries; after one message was
/// received, one message is accepted and goes to the end.
pub proof fn lemma_backpressure<T>(channel: ChannelView<T>, messages: Seq<T>, extra: T)
    requires
        channel.wf(),
        channel.queue.len() == 0,
        messages.len() == channel.capacity,
    ensures
        channel.after_sends(messages).send_outcome(extra) == Sent::Suspended(extra),
        channel.after_sends(messages).after_send(extra) == channel.after_sends(messages),
        channel.after_sends(messages).recv_outcome() == Received::Message(messages[0]),
        channel.after_sends(messages).after_recv().send_outcome(extra) == Sent::<T>::Accepted,
        channel.after_sends(messages).after_recv().after_send(extra).queue
            == messages.drop_first().push(extra),
{
    lemma_fills_to_capacity(channel, messages);
}

/// Closure is final. Once no sender is left and the channel is drained, every receive
/// reports the closure and leaves the channel as it is: no message comes back and no
/// receiver is suspended again.
pub proof fn lemma_closed_for_good<T>(channel: ChannelView<T>, calls: nat)
    requires
        channel.senders == 0,
        channel.queue.len() == 0,
    ensures
        channel.after_recvs(calls) == channel,
        channel.after_recvs(calls).recv_outcome() == Received::<T>::Closed,
    decreases calls,
{
    if calls > 0 {
        lemma_closed_for_good(channel, (calls - 1) as nat);
    }
}

/// No message is lost, doubled or overtaken: what is received is a message that was
/// sent, received in the order of sending. Receiving after sending gives the oldest
/// message and leaves the others in their order with the new one last.
pub proof fn lemma_first_in_first_out<T>(channel: ChannelView<T>, message: T)
    requires
        channel.wf(),
        !channel.is_full(),
    ensures
        channel.queue.len() == 0 ==> channel.after_send(message).recv_outcome()
            == Received::Message(message) && channel.after_send(message).after_recv().queue
            == channel.queue,
        channel.queue.len() > 0 ==> channel.after_send(message).recv_outcome()
            == Received::Message(channel.queue[0]) && channel.after_send(message).after_recv().queue
            == channel.queue.drop_first().push(message),
{
    if channel.queue.len() == 0 {
        assert(channel.queue.push(message).drop_first() =~= channel.queue);
    } else {
        assert(channel.queue.push(message).drop_first() =~= channel.queue.drop_first().push(
            message,
        ));
    }
}

} // verus!
