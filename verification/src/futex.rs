//! Futexes: the queues of tasks waiting on a physical address, and the
//! `futex` system call's wake and requeue decisions.

use vstd::prelude::*;
use crate::kernel::{Kernel, wake_up_post};
use crate::wait_queue::{WaitQueue, waiters_known, wake_trace, woken_in_order, lemma_wake_trace_push};
use crate::task_queue::other_than;

verus! {

/// The waiting queues, by physical address, kept in a `hashbrown` map.
#[verifier::external_body]
pub struct FutexManager {
    futexes: hashbrown::HashMap<usize, Vec<u32>>,
}

/// The tasks waiting on each address of a futex table, in queue order.
pub uninterp spec fn futex_queues(m: FutexManager) -> Map<usize, Seq<u32>>;

impl FutexManager {
    /// An empty table (`hashbrown::HashMap::new`).
    #[verifier::external_body]
    pub fn new() -> (r: FutexManager)
        ensures
            futex_queues(r) =~= Map::empty(),
    {
        FutexManager { futexes: hashbrown::HashMap::new() }
    }

    /// Takes the queue of `addr` out of the table (`hashbrown::HashMap::remove`):
    /// the queue that was filed there, if any.
    #[verifier::external_body]
    fn take(&mut self, addr: usize) -> (r: Option<Vec<u32>>)
        ensures
            futex_queues(*final(self)) == futex_queues(*old(self)).remove(addr),
            futex_queues(*old(self)).contains_key(addr) ==> (r matches Some(v) && v@ == futex_queues(*old(self))[addr]),
            !futex_queues(*old(self)).contains_key(addr) ==> r is None,
    {
        self.futexes.remove(&addr)
    }

    /// Puts `q` back as the queue of `addr` (`hashbrown::HashMap::insert`).
    #[verifier::external_body]
    fn put(&mut self, addr: usize, q: Vec<u32>)
        ensures
            futex_queues(*final(self)) == futex_queues(*old(self)).insert(addr, q@),
    {
        self.futexes.insert(addr, q);
    }

    /// The tasks waiting on `addr`.
    pub open spec fn queue(self, addr: usize) -> Seq<u32> {
        if futex_queues(self).contains_key(addr) { futex_queues(self)[addr] } else { Seq::empty() }
    }

    /// Takes the queue of `addr` as a wait queue; an address nobody waits
    /// on gives an empty queue.
    pub fn take_wait_queue(&mut self, addr: usize) -> (q: WaitQueue)
        ensures
            q@ == old(self).queue(addr),
            futex_queues(*final(self)) == futex_queues(*old(self)).remove(addr),
    {
        match self.take(addr) {
            Some(v) => WaitQueue::from_tasks(v),
            None => WaitQueue::new(),
        }
    }

    /// Puts a wait queue back as the queue of `addr`.
    pub fn put_wait_queue(&mut self, addr: usize, q: WaitQueue)
        ensures
            futex_queues(*final(self)) == futex_queues(*old(self)).insert(addr, q@),
    {
        self.put(addr, q.into_tasks());
    }

    /// Adds `task` at the back of the queue of `addr`.
    pub fn add_waiter(&mut self, addr: usize, task: u32)
        ensures
            futex_queues(*final(self)) == futex_queues(*old(self)).insert(addr, old(self).queue(addr).push(task)),
    {
        let mut q = self.take_wait_queue(addr);
        q.add_task(task);
        self.put_wait_queue(addr, q);
        assert(futex_queues(*self) =~= futex_queues(*old(self)).insert(addr, old(self).queue(addr).push(task)));
    }

    /// Removes `task` from the queue of `addr`; whether it was there.
    pub fn remove_waiter(&mut self, addr: usize, task: u32) -> (was: bool)
        ensures
            was == old(self).queue(addr).contains(task),
            futex_queues(*final(self)) == futex_queues(*old(self)).insert(addr,
                old(self).queue(addr).filter(other_than(task))),
    {
        let mut q = self.take_wait_queue(addr);
        let was = q.contains(task);
        q.remove_task(task);
        self.put_wait_queue(addr, q);
        assert(futex_queues(*self) =~= futex_queues(*old(self)).insert(addr,
            old(self).queue(addr).filter(other_than(task))));
        was
    }
}

/// Wakes up to `val` tasks waiting on `addr`, first come first; gives how many.
pub fn futex_wake_common(k: &mut Kernel, fm: &mut FutexManager, addr: usize, val: u32) -> (woken: i32)
    requires
        old(k).wf(),
        waiters_known(old(fm).queue(addr), *old(k)),
        val <= i32::MAX,
    ensures
        final(k).wf(),
        final(k).tasks()@.dom() == old(k).tasks()@.dom(),
        woken == if old(fm).queue(addr).len() < val { old(fm).queue(addr).len() as int } else { val as int },
        futex_queues(*final(fm)) == futex_queues(*old(fm)).insert(addr, old(fm).queue(addr).skip(woken as int)),
        woken_in_order(*old(k), *final(k), old(fm).queue(addr).take(woken as int)),
{
    let mut q = fm.take_wait_queue(addr);
    let ghost q0 = q@;
    let ghost mut trace: Seq<Kernel> = seq![*k];
    let ghost mut ips: Seq<Option<usize>> = Seq::empty();
    proof { assert(q0.take(0) =~= Seq::<u32>::empty()); }
    let mut woken: i32 = 0;
    let mut i: u32 = 0;
    while i < val && !q.is_empty()
        invariant
            k.wf(),
            0 <= woken == i <= val,
            val <= i32::MAX,
            woken <= q0.len(),
            q@ == q0.skip(woken as int),
            waiters_known(q@, *k),
            k.tasks()@.dom() == old(k).tasks()@.dom(),
            wake_trace(trace, ips, q0.take(woken as int)),
            trace[0] == *old(k),
            trace.last() == *k,
        decreases val - i,
    {
        let ghost kb = *k;
        let ghost qb = q@;
        q.wake_up_one(k);
        proof {
            let ipi = choose|ipi: Option<usize>| wake_up_post(kb, *k, qb[0], ipi);
            assert(qb[0] == q0[woken as int]);
            assert(q0.take(woken + 1) =~= q0.take(woken as int).push(qb[0]));
            lemma_wake_trace_push(trace, ips, q0.take(woken as int), *k, qb[0], ipi);
            trace = trace.push(*k);
            ips = ips.push(ipi);
            assert(qb.contains(qb[0]));
            assert(k.tasks()@.dom() =~= kb.tasks()@.dom());
            assert forall|t: u32| #[trigger] q@.contains(t) implies k.tasks()@.contains_key(t) by {
                let j = choose|j: int| 0 <= j < q@.len() && q@[j] == t;
                assert(qb[j + 1] == t);
                assert(qb.contains(t));
            }
        }
        woken = woken + 1;
        i = i + 1;
        assert(q@ =~= q0.skip(woken as int));
    }
    fm.put_wait_queue(addr, q);
    proof { assert(wake_trace(trace, ips, q0.take(woken as int))); }
    woken
}

/// Moves up to `count` waiters from the front of `src` to the back of `dst`
/// without waking them; gives how many moved.
pub fn requeue_waiters(src: &mut WaitQueue, dst: &mut WaitQueue, count: u32) -> (moved: i32)
    requires
        count <= i32::MAX,
    ensures
        moved == if old(src)@.len() < count { old(src)@.len() as int } else { count as int },
        final(src)@ == old(src)@.skip(moved as int),
        final(dst)@ == old(dst)@ + old(src)@.take(moved as int),
{
    let mut moved: i32 = 0;
    let mut i: u32 = 0;
    while i < count
        invariant
            0 <= moved == i <= count,
            count <= i32::MAX,
            moved <= old(src)@.len(),
            src@ == old(src)@.skip(moved as int),
            dst@ == old(dst)@ + old(src)@.take(moved as int),
        decreases count - i,
    {
        match src.pop_task_no_wake() {
            None => {
                return moved;
            },
            Some(t) => {
                dst.add_task(t);
                moved = moved + 1;
                i = i + 1;
                assert(src@ =~= old(src)@.skip(moved as int));
                assert(dst@ =~= old(dst)@ + old(src)@.take(moved as int));
            },
        }
    }
    moved
}


/// Wakes every task waiting on `addr`.
pub fn futex_wake_all(k: &mut Kernel, fm: &mut FutexManager, addr: usize)
    requires
        old(k).wf(),
        waiters_known(old(fm).queue(addr), *old(k)),
    ensures
        final(k).wf(),
        final(k).tasks()@.dom() == old(k).tasks()@.dom(),
        forall|t: u32| #[trigger] final(k).tasks()@.contains_key(t)
            ==> crate::wait_queue::only_sched_changed(old(k).tasks()@[t], final(k).tasks()@[t]),
        futex_queues(*final(fm)) == futex_queues(*old(fm)).insert(addr, Seq::empty()),
{
    let mut q = fm.take_wait_queue(addr);
    q.wake_up_all(k);
    fm.put_wait_queue(addr, q);
}

} // verus!
