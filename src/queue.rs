use std::collections::VecDeque;
use vstd::prelude::*;

verus! {

broadcast use vstd::std_specs::vecdeque::group_vec_dequeue_axioms;

/// What travels on the work queue: a job to run, or the signal that tells
/// one worker to stop.
pub enum Message<J> {
    NewJob(J),
    Terminate,
}

/// An unbounded first-in first-out channel of messages. Sending never blocks
/// and never rejects; each message is received exactly once, in the order in
/// which it was sent.
pub struct WorkQueue<J> {
    items: VecDeque<Message<J>>,
}

impl<J> View for WorkQueue<J> {
    type V = Seq<Message<J>>;

    closed spec fn view(&self) -> Seq<Message<J>> {
        self.items@
    }
}

impl<J> WorkQueue<J> {
    pub fn new() -> (r: Self)
        ensures
            r@ == Seq::<Message<J>>::empty(),
    {
        WorkQueue { items: VecDeque::new() }
    }

    pub fn len(&self) -> (r: usize)
        ensures
            r == self@.len(),
    {
        self.items.len()
    }

    pub fn is_empty(&self) -> (r: bool)
        ensures
            r == (self@.len() == 0),
    {
        self.items.len() == 0
    }

    /// Appends `m` at the back.
    pub fn send(&mut self, m: Message<J>)
        ensures
            final(self)@ == old(self)@.push(m),
    {
        self.items.push_back(m);
    }

    /// Takes the message at the front, if there is one.
    pub fn receive(&mut self) -> (r: Option<Message<J>>)
        ensures
            old(self)@.len() == 0 ==> r is None && final(self)@ == old(self)@,
            old(self)@.len() > 0 ==> r == Some(old(self)@[0]) && final(self)@ == old(self)@.drop_first(),
    {
        let r = self.items.pop_front();
        proof {
            if old(self)@.len() > 0 {
                assert(self@ =~= old(self)@.drop_first());
            }
        }
        r
    }
}

} // verus!
