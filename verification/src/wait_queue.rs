//! Wait queues: tasks waiting for an event, woken through the scheduler.

use vstd::prelude::*;
use crate::kernel::{Kernel, sleep_task, wake_up_task, wake_up_post, state_change_post, wakeable};
use crate::scheduler::sleep_state;
use crate::task::{Task, TaskState};
use crate::task_queue::{TaskQueue, other_than};

verus! {

/// Tasks waiting for one event, in arrival order.
#[derive(Debug)]
pub struct WaitQueue {
    tasks: TaskQueue,
}

/// Every waiter is a known task.
pub open spec fn waiters_known(q: Seq<u32>, k: Kernel) -> bool {
    forall|t: u32| #[trigger] q.contains(t) ==> k.tasks()@.contains_key(t)
}

/// `b` is `a` but for its state and the CPU it is placed on.
pub open spec fn only_sched_changed(a: Task, b: Task) -> bool {
    b == a.with_state(b.state).with_on_cpu(b.on_cpu)
}

/// The state a task ends in after a wake-up.
pub open spec fn woken_state(s: TaskState) -> TaskState {
    if wakeable(s) { TaskState::Running } else { s }
}

/// `ks` runs from one kernel state to the next, each step the wake-up of
/// the task at the same position of `ws` (with the interrupt of `ips`).
pub open spec fn wake_trace(ks: Seq<Kernel>, ips: Seq<Option<usize>>, ws: Seq<u32>) -> bool {
    &&& ks.len() == ws.len() + 1
    &&& ips.len() == ws.len()
    &&& forall|i: int| #![trigger ws[i]] 0 <= i < ws.len() ==> wake_up_post(ks[i], ks[i + 1], ws[i], ips[i])
}

/// `k1` is `k0` after waking the tasks of `ws` one at a time, each once, in
/// that order.
pub open spec fn woken_in_order(k0: Kernel, k1: Kernel, ws: Seq<u32>) -> bool {
    exists|ks: Seq<Kernel>, ips: Seq<Option<usize>>| #[trigger] wake_trace(ks, ips, ws) && ks[0] == k0 && ks.last() == k1
}

/// One more wake-up extends a trace.
pub proof fn lemma_wake_trace_push(ks: Seq<Kernel>, ips: Seq<Option<usize>>, ws: Seq<u32>, k: Kernel, t: u32,
    ipi: Option<usize>)
    requires
        wake_trace(ks, ips, ws),
        wake_up_post(ks.last(), k, t, ipi),
    ensures
        wake_trace(ks.push(k), ips.push(ipi), ws.push(t)),
        ks.push(k).last() == k,
        ks.push(k)[0] == ks[0],
{
    let ks2 = ks.push(k);
    let ws2 = ws.push(t);
    let ips2 = ips.push(ipi);
    assert forall|i: int| #![trigger ws2[i]] 0 <= i < ws2.len() implies wake_up_post(ks2[i], ks2[i + 1], ws2[i], ips2[i]) by {
        if i < ws.len() {
            assert(ks2[i] == ks[i] && ks2[i + 1] == ks[i + 1] && ws2[i] == ws[i] && ips2[i] == ips[i]);
        } else {
            assert(ks2[i] == ks.last() && ks2[i + 1] == k && ws2[i] == t && ips2[i] == ipi);
        }
    }
}

impl WaitQueue {
    pub closed spec fn view(&self) -> Seq<u32> {
        self.tasks@
    }

    /// An empty wait queue.
    pub fn new() -> (q: Self)
        ensures
            q@ == Seq::<u32>::empty(),
    {
        WaitQueue { tasks: TaskQueue::new() }
    }

    /// A queue of the tasks in `v`, front first, none of them woken.
    pub fn from_tasks(v: Vec<u32>) -> (q: Self)
        ensures
            q@ == v@,
    {
        WaitQueue { tasks: TaskQueue::from_vec(v) }
    }

    /// The waiting tasks, front first.
    pub fn into_tasks(self) -> (v: Vec<u32>)
        ensures
            v@ == self@,
    {
        self.tasks.into_vec()
    }

    /// Queues `task` and puts it to sleep (interruptibly); the switch away
    /// from it happens at the next `schedule`.
    pub fn sleep(&mut self, k: &mut Kernel, task: u32)
        requires
            old(k).wf(),
            old(k).tasks()@.contains_key(task),
        ensures
            final(k).wf(),
            final(self)@ == old(self)@.push(task),
            state_change_post(*old(k), *final(k), task, sleep_state(true)),
    {
        self.tasks.add_task(task);
        sleep_task(k, task, true);
    }

    /// Wakes `task` if it waits here, taking it off the queue.
    pub fn wake_up(&mut self, k: &mut Kernel, task: u32)
        requires
            old(k).wf(),
            old(k).tasks()@.contains_key(task),
        ensures
            final(k).wf(),
            old(self)@.contains(task) ==> final(self)@ == old(self)@.filter(other_than(task))
                && exists|ipi: Option<usize>| wake_up_post(*old(k), *final(k), task, ipi),
            !old(self)@.contains(task) ==> final(self)@ == old(self)@ && *final(k) == *old(k),
    {
        if self.tasks.contains(task) {
            self.tasks.remove_task(task);
            let ipi = wake_up_task(k, task);
        }
    }

    /// Wakes the task at the front, if any.
    pub fn wake_up_one(&mut self, k: &mut Kernel)
        requires
            old(k).wf(),
            waiters_known(old(self)@, *old(k)),
        ensures
            final(k).wf(),
            old(self)@.len() == 0 ==> final(self)@ == old(self)@ && *final(k) == *old(k),
            old(self)@.len() > 0 ==> final(self)@ == old(self)@.drop_first()
                && exists|ipi: Option<usize>| wake_up_post(*old(k), *final(k), old(self)@[0], ipi),
    {
        proof {
            if old(self)@.len() > 0 {
                assert(old(self)@.contains(old(self)@[0]));
            }
        }
        if let Some(t) = self.tasks.pop_task() {
            let ipi = wake_up_task(k, t);
        }
    }

    /// Wakes every waiting task, front first, and empties the queue. Each
    /// waiter that slept now runs; the others keep their state; tasks that
    /// did not wait here keep their state.
    pub fn wake_up_all(&mut self, k: &mut Kernel)
        requires
            old(k).wf(),
            waiters_known(old(self)@, *old(k)),
        ensures
            final(k).wf(),
            final(self)@ == Seq::<u32>::empty(),
            final(k).tasks()@.dom() == old(k).tasks()@.dom(),
            forall|t: u32| #[trigger] final(k).tasks()@.contains_key(t) ==> only_sched_changed(old(k).tasks()@[t], final(k).tasks()@[t]),
            forall|t: u32| #[trigger] final(k).tasks()@.contains_key(t) ==> final(k).tasks()@[t].state == if old(self)@.contains(t) {
                woken_state(old(k).tasks()@[t].state)
            } else {
                old(k).tasks()@[t].state
            },
            woken_in_order(*old(k), *final(k), old(self)@),
    {
        let ghost q0 = self.tasks@;
        let ghost k0 = *k;
        let ghost mut done: int = 0;
        let ghost mut trace: Seq<Kernel> = seq![*k];
        let ghost mut ips: Seq<Option<usize>> = Seq::empty();
        proof {
            assert(q0.take(0) =~= Seq::<u32>::empty());
        }
        while !self.tasks.is_empty()
            invariant
                k.wf(),
                k.tasks()@.dom() == k0.tasks()@.dom(),
                0 <= done <= q0.len(),
                self.tasks@ == q0.skip(done),
                waiters_known(q0, k0),
                forall|t: u32| #[trigger] k.tasks()@.contains_key(t) ==> only_sched_changed(k0.tasks()@[t], k.tasks()@[t]),
                forall|t: u32| #[trigger] k.tasks()@.contains_key(t) ==> k.tasks()@[t].state == if q0.take(done).contains(t) {
                    woken_state(k0.tasks()@[t].state)
                } else {
                    k0.tasks()@[t].state
                },
                wake_trace(trace, ips, q0.take(done)),
                trace[0] == k0,
                trace.last() == *k,
            decreases self.tasks@.len(),
        {
            proof {
                assert(q0.skip(done).len() == q0.len() - done);
                assert(q0.skip(done)[0] == q0[done]);
            }
            let t = self.tasks.pop_task().unwrap();
            let ghost kb = *k;
            proof {
                assert(q0[done] == t);
                assert(q0.contains(t));
            }
            let ipi = wake_up_task(k, t);
            proof {
                assert(q0.take(done + 1) =~= q0.take(done).push(t));
                lemma_wake_trace_push(trace, ips, q0.take(done), *k, t, ipi);
                trace = trace.push(*k);
                ips = ips.push(ipi);
                assert(q0.skip(done).drop_first() =~= q0.skip(done + 1));
                assert(k.tasks()@.dom() =~= kb.tasks()@.dom());
                assert forall|x: u32| #[trigger] k.tasks()@.contains_key(x) implies only_sched_changed(k0.tasks()@[x], k.tasks()@[x]) by {
                    assert(kb.tasks()@.contains_key(x));
                    assert(only_sched_changed(k0.tasks()@[x], kb.tasks()@[x]));
                }
                assert forall|x: u32| #[trigger] k.tasks()@.contains_key(x) implies k.tasks()@[x].state == if q0.take(done + 1).contains(x) {
                    woken_state(k0.tasks()@[x].state)
                } else {
                    k0.tasks()@[x].state
                } by {
                    if x == t {
                        assert(q0.take(done + 1)[done] == t);
                    } else {
                        assert(kb.tasks()@.contains_key(x));
                        let pre = q0.take(done);
                        let post = q0.take(done + 1);
                        assert(post == pre.push(t));
                        if pre.contains(x) {
                            let j = choose|j: int| 0 <= j < pre.len() && pre[j] == x;
                            assert(post[j] == x);
                        }
                        if post.contains(x) {
                            let j = choose|j: int| 0 <= j < post.len() && post[j] == x;
                            assert(pre[j] == x);
                        }
                    }
                }
            }
            proof { done = done + 1; }
        }
        proof {
            assert(q0.skip(done).len() == q0.len() - done);
            assert(q0.take(done) =~= q0);
            assert(wake_trace(trace, ips, q0));
        }
    }

    /// Queues `task` without putting it to sleep.
    pub fn add_task(&mut self, task: u32)
        ensures
            final(self)@ == old(self)@.push(task),
    {
        self.tasks.add_task(task);
    }

    /// Takes `task` off the queue without waking it.
    pub fn remove_task(&mut self, task: u32)
        ensures
            final(self)@ == old(self)@.filter(other_than(task)),
    {
        self.tasks.remove_task(task);
    }

    /// Takes the front task off the queue without waking it.
    pub fn pop_task_no_wake(&mut self) -> (r: Option<u32>)
        ensures
            old(self)@.len() == 0 ==> r is None && final(self)@ == old(self)@,
            old(self)@.len() > 0 ==> r == Some(old(self)@[0]) && final(self)@ == old(self)@.drop_first(),
    {
        self.tasks.pop_task()
    }

    /// Whether `task` waits here.
    pub fn contains(&self, task: u32) -> (r: bool)
        ensures
            r == self@.contains(task),
    {
        self.tasks.contains(task)
    }

    /// Whether nobody waits here.
    pub fn is_empty(&self) -> (r: bool)
        ensures
            r == (self@.len() == 0),
    {
        self.tasks.is_empty()
    }

    /// Sleeps on this queue unless `condition_met`, the caller's check made
    /// under the queue lock (which closes the lost-wakeup window); says
    /// whether the task went to sleep.
    pub fn sleep_if(&mut self, k: &mut Kernel, task: u32, condition_met: bool) -> (slept: bool)
        requires
            old(k).wf(),
            old(k).tasks()@.contains_key(task),
        ensures
            final(k).wf(),
            slept == !condition_met,
            slept ==> final(self)@ == old(self)@.push(task)
                && state_change_post(*old(k), *final(k), task, sleep_state(true)),
            !slept ==> final(self)@ == old(self)@ && *final(k) == *old(k),
    {
        if condition_met {
            return false;
        }
        self.tasks.add_task(task);
        sleep_task(k, task, true);
        true
    }
}

} // verus!
