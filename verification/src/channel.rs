use crate::message::Message;
use std::collections::VecDeque;
use vstd::prelude::*;

verus! {

/// The dispatch channel: an unbounded first-in, first-out queue of messages.
///
/// Its view is the sequence of messages that were sent and not yet received,
/// oldest first.
pub struct Channel<T> {
    queue: VecDeque<Message<T>>,
}

impl<T> View for Channel<T> {
    type V = Seq<Message<T>>;

    closed spec fn view(&self) -> Seq<Message<T>> {
        self.queue@
    }
}

impl<T> Channel<T> {
    /// An empty channel.
    pub fn new() -> (channel: Self)
        ensures
            channel@ == Seq::<Message<T>>::empty(),
    {
        Channel { queue: VecDeque::new() }
    }

    /// Enqueues `message` at the tail.
    pub fn send(&mut self, message: Message<T>)
        ensures
            final(self)@ == old(self)@.push(message),
    {
        self.queue.push_back(message);
    }

    /// Removes and returns the head message, or returns `None` and leaves the
    /// channel as it is when no message is waiting.
    pub fn receive(&mut self) -> (received: Option<Message<T>>)
        ensures
            old(self)@.len() == 0 ==> received is None && final(self)@ == old(self)@,
            old(self)@.len() > 0 ==> received == Some(old(self)@[0])
                && final(self)@ == old(self)@.skip(1),
    {
        self.queue.pop_front()
    }

    /// The number of messages waiting.
    pub fn len(&self) -> (n: usize)
        ensures
            n == self@.len(),
    {
        self.queue.len()
    }

    /// Whether no message is waiting.
    pub fn is_empty(&self) -> (empty: bool)
        ensures
            empty == (self@.len() == 0),
    {
        self.queue.len() == 0
    }
}

} // verus!
