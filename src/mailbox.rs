//! A first-in first-out mailbox that a producer closes when it is done.
use vstd::prelude::*;
use std::collections::VecDeque;

verus! {

pub struct Mailbox {
    queue: VecDeque<i32>,
    finished: bool,
}

impl View for Mailbox {
    /// The values waiting, oldest first, and whether the producer is done.
    type V = (Seq<i32>, bool);

    closed spec fn view(&self) -> (Seq<i32>, bool) {
        (self.queue@, self.finished)
    }
}

impl Mailbox {
    /// An empty, open mailbox.
    pub fn new() -> (m: Mailbox)
        ensures
            m@ == (Seq::<i32>::empty(), false),
    {
        Mailbox { queue: VecDeque::new(), finished: false }
    }

    /// Appends `value` after the values already waiting.
    pub fn send(&mut self, value: i32)
        ensures
            final(self)@ == (old(self)@.0.push(value), old(self)@.1),
    {
        self.queue.push_back(value);
    }

    /// Takes the oldest waiting value; `None` when nothing waits.
    pub fn receive(&mut self) -> (r: Option<i32>)
        ensures
            old(self)@.0.len() == 0 ==> r is None && final(self)@ == old(self)@,
            old(self)@.0.len() > 0 ==> r == Some(old(self)@.0[0]) && final(self)@ == (
                old(self)@.0.drop_first(),
                old(self)@.1,
            ),
    {
        if self.queue.len() == 0 && self.finished {
            None
        } else {
            self.queue.pop_front()
        }
    }

    /// Marks the producer as done; waiting values stay.
    pub fn finish(&mut self)
        ensures
            final(self)@ == (old(self)@.0, true),
    {
        self.finished = true;
    }

    /// Whether a consumer has to wait: nothing waits and the producer is not done.
    pub fn must_wait(&self) -> (r: bool)
        ensures
            r == (self@.0.len() == 0 && !self@.1),
    {
        self.queue.len() == 0 && !self.finished
    }

    /// Whether the producer is done.
    pub fn is_finished(&self) -> (r: bool)
        ensures
            r == self@.1,
    {
        self.finished
    }
}

} // verus!
