//! The coordinator's command queue: commands wait here until some worker's
//! connection writer takes them, first in, first out.
use vstd::prelude::*;
use crate::message::Message;

verus! {

/// Commands waiting for a worker, with a record of every command ever enqueued
/// and of those handed out so far.
pub struct CommandQueue {
    items: Vec<Message>,
    enqueued: Ghost<Seq<Message>>,
    delivered: Ghost<Seq<Message>>,
}

impl CommandQueue {
    /// The commands still waiting, oldest first.
    pub closed spec fn waiting(&self) -> Seq<Message> {
        self.items@
    }

    /// Every command ever enqueued, in order.
    pub closed spec fn enqueued(&self) -> Seq<Message> {
        self.enqueued@
    }

    /// Every command handed to a writer, in order.
    pub closed spec fn delivered(&self) -> Seq<Message> {
        self.delivered@
    }

    /// Each enqueued command has either been handed out or is still waiting,
    /// and the handed-out ones are the oldest.
    pub open spec fn wf(&self) -> bool {
        self.delivered() + self.waiting() == self.enqueued()
    }

    /// An empty queue.
    pub fn new() -> (r: CommandQueue)
        ensures
            r.wf(),
            r.waiting() == Seq::<Message>::empty(),
            r.enqueued() == Seq::<Message>::empty(),
            r.delivered() == Seq::<Message>::empty(),
    {
        CommandQueue { items: Vec::new(), enqueued: Ghost(Seq::empty()), delivered: Ghost(Seq::empty()) }
    }

    /// Number of waiting commands.
    pub fn len(&self) -> (r: usize)
        ensures
            r == self.waiting().len(),
    {
        self.items.len()
    }

    /// Whether no command waits.
    pub fn is_empty(&self) -> (r: bool)
        ensures
            r == (self.waiting().len() == 0),
    {
        self.items.len() == 0
    }

    /// Appends `m` behind the waiting commands.
    pub fn push(&mut self, m: Message)
        requires
            old(self).wf(),
        ensures
            final(self).wf(),
            final(self).waiting() == old(self).waiting().push(m),
            final(self).enqueued() == old(self).enqueued().push(m),
            final(self).delivered() == old(self).delivered(),
    {
        self.items.push(m);
        self.enqueued = Ghost(self.enqueued@.push(m));
        assert(self.delivered() + self.waiting() =~= self.enqueued());
    }

    /// Hands out the oldest waiting command, which leaves the queue for good.
    pub fn pop_next(&mut self) -> (r: Option<Message>)
        requires
            old(self).wf(),
        ensures
            final(self).wf(),
            final(self).enqueued() == old(self).enqueued(),
            old(self).waiting().len() == 0 ==> r is None && final(self).delivered() == old(
                self,
            ).delivered() && final(self).waiting() == old(self).waiting(),
            old(self).waiting().len() > 0 ==> r == Some(old(self).waiting()[0])
                && final(self).waiting() == old(self).waiting().drop_first()
                && final(self).delivered() == old(self).delivered().push(old(self).waiting()[0]),
    {
        if self.items.len() == 0 {
            return None;
        }
        let m = self.items.remove(0);
        self.delivered = Ghost(self.delivered@.push(m));
        assert(self.items@ =~= old(self).items@.drop_first());
        assert(self.delivered() + self.waiting() =~= old(self).delivered() + old(self).waiting());
        Some(m)
    }
}

/// A command handed out once never comes out again: each command enqueued is,
/// by its position, either delivered exactly once or still waiting, and the
/// delivered ones left in the order they were enqueued.
pub proof fn lemma_delivered_at_most_once(q: &CommandQueue)
    requires
        q.wf(),
    ensures
        q.delivered().len() + q.waiting().len() == q.enqueued().len(),
        forall|k: int| 0 <= k < q.delivered().len() ==> q.delivered()[k] == q.enqueued()[k],
        forall|k: int|
            0 <= k < q.waiting().len() ==> q.waiting()[k] == q.enqueued()[q.delivered().len() + k],
{
    assert forall|k: int| 0 <= k < q.delivered().len() implies q.delivered()[k] == q.enqueued()[k] by {
        assert((q.delivered() + q.waiting())[k] == q.delivered()[k]);
    }
    assert forall|k: int| 0 <= k < q.waiting().len() implies q.waiting()[k] == q.enqueued()[
        q.delivered().len() + k] by {
        assert((q.delivered() + q.waiting())[q.delivered().len() + k] == q.waiting()[k]);
    }
}

} // verus!
