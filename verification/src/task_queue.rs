//! A FIFO queue of tasks, by tid.

use vstd::prelude::*;

verus! {

broadcast use vstd::seq_lib::group_seq_properties;

/// The predicate that keeps every tid but `task`.
pub open spec fn other_than(task: u32) -> spec_fn(u32) -> bool {
    |t: u32| t != task
}

/// The tids in a queue, front first.
#[derive(Debug)]
pub struct TaskQueue {
    queue: Vec<u32>,
}

impl TaskQueue {
    pub closed spec fn view(&self) -> Seq<u32> {
        self.queue@
    }

    /// An empty queue.
    pub fn new() -> (q: Self)
        ensures
            q@ == Seq::<u32>::empty(),
    {
        TaskQueue { queue: Vec::new() }
    }

    /// An empty queue, for static initialisation.
    pub fn empty() -> (q: Self)
        ensures
            q@ == Seq::<u32>::empty(),
    {
        TaskQueue { queue: Vec::new() }
    }

    /// A queue holding `v`, front first.
    pub fn from_vec(v: Vec<u32>) -> (q: Self)
        ensures
            q@ == v@,
    {
        TaskQueue { queue: v }
    }

    /// The queued entries, front first.
    pub fn into_vec(self) -> (v: Vec<u32>)
        ensures
            v@ == self@,
    {
        self.queue
    }

    /// The number of queued entries.
    pub fn len(&self) -> (n: usize)
        ensures
            n == self@.len(),
    {
        self.queue.len()
    }

    /// Appends `task` at the back.
    pub fn add_task(&mut self, task: u32)
        ensures
            final(self)@ == old(self)@.push(task),
    {
        self.queue.push(task);
    }

    /// Removes every entry equal to `task`, keeping the order of the rest.
    pub fn remove_task(&mut self, task: u32)
        ensures
            final(self)@ == old(self)@.filter(other_than(task)),
    {
        let mut kept: Vec<u32> = Vec::new();
        let mut i: usize = 0;
        while i < self.queue.len()
            invariant
                i <= self.queue@.len(),
                self.queue@ == old(self)@,
                kept@ == self.queue@.take(i as int).filter(other_than(task)),
            decreases self.queue@.len() - i,
        {
            let t = self.queue[i];
            proof {
                assert(self.queue@.take(i as int + 1) =~= self.queue@.take(i as int).push(t));
                self.queue@.take(i as int).lemma_filter_push(t, other_than(task));
                assert(other_than(task)(t) == (t != task));
            }
            if t != task {
                kept.push(t);
            }
            i = i + 1;
        }
        proof {
            assert(self.queue@.take(i as int) =~= self.queue@);
        }
        self.queue = kept;
    }

    /// Takes the entry at the front.
    pub fn pop_task(&mut self) -> (r: Option<u32>)
        ensures
            old(self)@.len() == 0 ==> r is None && final(self)@ == old(self)@,
            old(self)@.len() > 0 ==> r == Some(old(self)@[0]) && final(self)@ == old(
                self,
            )@.drop_first(),
    {
        if !self.queue.is_empty() {
            Some(self.queue.remove(0))
        } else {
            None
        }
    }

    /// Whether `task` is queued.
    pub fn contains(&self, task: u32) -> (r: bool)
        ensures
            r == self@.contains(task),
    {
        let mut i: usize = 0;
        while i < self.queue.len()
            invariant
                i <= self.queue@.len(),
                forall|j: int| 0 <= j < i ==> self.queue@[j] != task,
            decreases self.queue@.len() - i,
        {
            if self.queue[i] == task {
                return true;
            }
            i = i + 1;
        }
        false
    }

    /// Whether the queue is empty.
    pub fn is_empty(&self) -> (r: bool)
        ensures
            r == (self@.len() == 0),
    {
        self.queue.is_empty()
    }
}

/// Removing a task from a queue leaves no copy of it, keeps every other
/// entry, and never makes the queue longer.
pub proof fn lemma_remove_drops_only_task(s: Seq<u32>, task: u32)
    ensures
        !s.filter(other_than(task)).contains(task),
        forall|x: u32| x != task ==> (s.filter(other_than(task)).contains(x) <==> s.contains(x)),
        s.filter(other_than(task)).len() <= s.len(),
        !s.contains(task) ==> s.filter(other_than(task)) == s,
    decreases s.len(),
{
    reveal(Seq::filter);
    if s.len() > 0 {
        lemma_remove_drops_only_task(s.drop_last(), task);
        assert(s.drop_last().push(s.last()) =~= s);
        s.drop_last().lemma_filter_push(s.last(), other_than(task));
        assert forall|x: u32| x != task implies (s.filter(other_than(task)).contains(x) <==> s.contains(x)) by {
            if s.contains(x) && !s.drop_last().contains(x) {
                assert(s.last() == x);
                assert(s.filter(other_than(task)).last() == x);
            }
            if s.drop_last().contains(x) {
                let j = choose|j: int| 0 <= j < s.drop_last().len() && s.drop_last()[j] == x;
                assert(s[j] == x);
            }
        }
    } else {
        assert(s.filter(other_than(task)) =~= s);
    }
}

} // verus!
