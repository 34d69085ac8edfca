//! The actions a run hands to the host, in the order the script made them:
//! the host takes them one at a time, and may ask to wait before the next
//! one; the run goes on once all were taken, and an error or an abort
//! drops those still waiting.

use crate::runtime::handler::Reply;
use crate::runtime::RuntimeError;
use vstd::prelude::*;

verus! {

/// Where handing out the actions stands after the host's reply.
#[derive(Debug, PartialEq, Eq)]
pub enum FlushStep {
    /// Hand out the next action.
    Next,
    /// No action waits: the run goes on.
    Done,
    /// The host asked to wait: the run pauses, and the actions still
    /// waiting are handed out first when it goes on.
    Wait,
    /// The host failed: the run aborts.
    Failed(RuntimeError),
}

/// The actions waiting for the host, the first one first.
pub struct ActionQueue<A> {
    items: Vec<A>,
    start: usize,
}

impl<A> ActionQueue<A> {
    /// The actions still waiting, in order.
    pub closed spec fn waiting(self) -> Seq<A> {
        self.items@.skip(self.start as int)
    }

    /// Whether the queue is well formed.
    pub closed spec fn inv(self) -> bool {
        self.start <= self.items@.len()
    }

    /// A queue with no action.
    pub fn new() -> (r: Self)
        ensures
            r.inv(),
            r.waiting() == Seq::<A>::empty(),
    {
        let r = ActionQueue { items: Vec::new(), start: 0 };
        assert(r.waiting() =~= Seq::<A>::empty());
        r
    }

    /// Puts `a` after the actions waiting.
    pub fn push(&mut self, a: A)
        requires
            old(self).inv(),
        ensures
            final(self).inv(),
            final(self).waiting() == old(self).waiting().push(a),
    {
        self.items.push(a);
        assert(self.items@.skip(self.start as int) =~= old(self).items@.skip(self.start as int).push(a));
    }

    /// The number of actions waiting.
    pub fn len(&self) -> (r: usize)
        requires
            self.inv(),
        ensures
            r == self.waiting().len(),
    {
        self.items.len() - self.start
    }

    /// The action to hand out now: the first one waiting.
    pub fn next_action(&self) -> (r: Option<&A>)
        requires
            self.inv(),
        ensures
            match r {
                Some(x) => self.waiting().len() > 0 && *x == self.waiting()[0],
                None => self.waiting().len() == 0,
            },
    {
        if self.start < self.items.len() {
            Some(&self.items[self.start])
        } else {
            None
        }
    }

    /// The host's reply to the first action: when it took the action, the
    /// action leaves the queue, and the next one comes or, when none is
    /// left, the run goes on; when it asks to wait, the action leaves the
    /// queue and the run pauses; when it failed, every action waiting is
    /// dropped. With no action waiting, the run goes on.
    pub fn reply(&mut self, reply: Reply<()>) -> (r: FlushStep)
        requires
            old(self).inv(),
        ensures
            final(self).inv(),
            old(self).waiting().len() == 0 ==> r == FlushStep::Done && final(self).waiting() == old(self).waiting(),
            old(self).waiting().len() > 0 ==> match reply {
                Reply::Ready(_) => final(self).waiting() == old(self).waiting().drop_first() && r == (if final(self).waiting().len() == 0 {
                    FlushStep::Done
                } else {
                    FlushStep::Next
                }),
                Reply::Pending => final(self).waiting() == old(self).waiting().drop_first() && r == FlushStep::Wait,
                Reply::Error(e) => final(self).waiting() == Seq::<A>::empty() && r == FlushStep::Failed(e),
            },
    {
        if self.start >= self.items.len() {
            return FlushStep::Done;
        }
        match reply {
            Reply::Ready(_) => {
                self.take_first();
                if self.start < self.items.len() {
                    FlushStep::Next
                } else {
                    FlushStep::Done
                }
            },
            Reply::Pending => {
                self.take_first();
                FlushStep::Wait
            },
            Reply::Error(e) => {
                self.clear();
                FlushStep::Failed(e)
            },
        }
    }

    /// Takes the first action out of the queue; an empty queue gives its
    /// room back.
    fn take_first(&mut self)
        requires
            old(self).inv(),
            old(self).waiting().len() > 0,
        ensures
            final(self).inv(),
            final(self).waiting() == old(self).waiting().drop_first(),
            final(self).waiting().len() == 0 <==> final(self).start == final(self).items@.len(),
    {
        let n = self.items.len();
        assert(self.items@.skip(self.start as int).len() == n - self.start);
        self.start = self.start + 1;
        assert(self.items@.skip(self.start as int) =~= old(self).waiting().drop_first());
        if self.start == self.items.len() {
            self.start = 0;
            self.items.clear();
            assert(self.items@.skip(0) =~= Seq::<A>::empty());
        }
    }

    /// Drops every action waiting (as an abort does).
    pub fn clear(&mut self)
        requires
            old(self).inv(),
        ensures
            final(self).inv(),
            final(self).waiting() == Seq::<A>::empty(),
    {
        self.start = 0;
        self.items.clear();
        assert(self.items@.skip(0) =~= Seq::<A>::empty());
    }
}

/// The host gets the actions in the order the script made them: when `p`
/// is `q` with `a` pushed (see `push`), the action handed out first is the
/// first that waited in `q`, or `a` when none did, and after it the others
/// follow in the same order, `a` last.
pub proof fn lemma_first_in_first_out<A>(q: ActionQueue<A>, a: A, p: ActionQueue<A>)
    requires
        p.waiting() == q.waiting().push(a),
    ensures
        p.waiting()[0] == if q.waiting().len() > 0 {
            q.waiting()[0]
        } else {
            a
        },
        q.waiting().len() > 0 ==> p.waiting().drop_first() == q.waiting().drop_first().push(a),
{
    if q.waiting().len() > 0 {
        assert(q.waiting().push(a).drop_first() =~= q.waiting().drop_first().push(a));
    }
}

} // verus!
