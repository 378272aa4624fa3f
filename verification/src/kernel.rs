//! Kernel-wide scheduling state: the task table, the CPUs and their run
//! queues, and the operations that move tasks between them.

use vstd::prelude::*;
use crate::cpu::Cpu;
use crate::scheduler::{RRScheduler, Scheduler, SwitchPlan, sleep_state, DEFAULT_TIME_SLICE};
use crate::task::{Task, TaskManager, TaskState, TaskUpdate, valid_signal, sig_bit};
use crate::task_queue::other_than;

verus! {

/// The scheduling state of the whole machine.
pub struct Kernel {
    tasks: TaskManager,
    cpus: Vec<Cpu>,
    schedulers: Vec<RRScheduler>,
    next_cpu: usize,
    cur_cpu: usize,
}

impl Kernel {
    pub closed spec fn tasks(&self) -> TaskManager {
        self.tasks
    }

    pub closed spec fn num_cpu(&self) -> nat {
        self.cpus@.len()
    }

    pub closed spec fn cpu(&self, id: int) -> Cpu {
        self.cpus@[id]
    }

    pub closed spec fn sched(&self, id: int) -> RRScheduler {
        self.schedulers@[id]
    }

    pub open spec fn queue(&self, id: int) -> Seq<u32> {
        self.sched(id).queue()
    }

    /// The CPU this code runs on.
    pub closed spec fn cur_cpu(&self) -> usize {
        self.cur_cpu
    }

    /// The round-robin counter used to place woken tasks.
    pub closed spec fn next_cpu(&self) -> usize {
        self.next_cpu
    }

    pub closed spec fn wf(&self) -> bool {
        &&& self.tasks.wf()
        &&& self.cpus@.len() > 0
        &&& self.schedulers@.len() == self.cpus@.len()
        &&& self.cur_cpu < self.cpus@.len()
        &&& forall|c: int| 0 <= c < self.cpus@.len() ==> #[trigger] self.cpus@[c].cpu_id == c
        &&& forall|t: u32| #[trigger] self.tasks@.contains_key(t) ==> (self.tasks@[t].on_cpu matches Some(c) ==> c < self.cpus@.len())
        &&& forall|c: int, t: u32| 0 <= c < self.cpus@.len() && #[trigger] self.schedulers@[c].queue().contains(t)
            ==> self.tasks@.contains_key(t)
        &&& forall|c: int| 0 <= c < self.cpus@.len() ==> (#[trigger] self.cpus@[c].current_task matches Some(t) ==> self.tasks@.contains_key(t))
        &&& forall|c: int| 0 <= c < self.cpus@.len() ==> (#[trigger] self.cpus@[c].idle_task matches Some(t) ==> self.tasks@.contains_key(t))
    }

    /// CPU `c` of a well-formed machine carries id `c`.
    pub proof fn lemma_cpu_ids(&self)
        requires
            self.wf(),
        ensures
            forall|c: int| 0 <= c < self.num_cpu() ==> #[trigger] self.cpu(c).cpu_id == c,
    {
    }

    /// A machine with `num_cpu` idle CPUs and no tasks; code runs on CPU 0.
    pub fn new(num_cpu: usize) -> (k: Kernel)
        requires
            num_cpu > 0,
        ensures
            k.wf(),
            k.num_cpu() == num_cpu,
            k.cur_cpu() == 0,
            k.next_cpu() == 0,
            k.tasks()@ == Map::<u32, Task>::empty(),
            k.tasks().next_tid() == 1,
            forall|c: int| 0 <= c < num_cpu ==> #[trigger] k.queue(c) == Seq::<u32>::empty()
                && k.cpu(c).current_task is None && k.cpu(c).idle_task is None && k.cpu(c).cpu_id == c,
    {
        let mut cpus: Vec<Cpu> = Vec::new();
        let mut schedulers: Vec<RRScheduler> = Vec::new();
        let mut i: usize = 0;
        while i < num_cpu
            invariant
                i <= num_cpu,
                cpus@.len() == i,
                schedulers@.len() == i,
                forall|c: int| 0 <= c < i ==> (#[trigger] cpus@[c]).cpu_id == c
                    && cpus@[c].current_task is None && cpus@[c].idle_task is None,
                forall|c: int| 0 <= c < i ==> #[trigger] schedulers@[c].queue() == Seq::<u32>::empty(),
            decreases num_cpu - i,
        {
            cpus.push(Cpu::new_with_id(i));
            schedulers.push(RRScheduler::empty());
            i = i + 1;
        }
        let k = Kernel { tasks: TaskManager::new(), cpus, schedulers, next_cpu: 0, cur_cpu: 0 };
        assert forall|c: int| 0 <= c < num_cpu implies #[trigger] k.queue(c) == Seq::<u32>::empty()
            && k.cpu(c).current_task is None && k.cpu(c).idle_task is None && k.cpu(c).cpu_id == c by {
            assert(k.cpus@[c].cpu_id == c);
            assert(k.schedulers@[c].queue() == Seq::<u32>::empty());
        }
        assert forall|c: int, t: u32| 0 <= c < k.cpus@.len() && #[trigger] k.schedulers@[c].queue().contains(t)
            implies k.tasks@.contains_key(t) by {
            assert(k.schedulers@[c].queue() == Seq::<u32>::empty());
        }
        assert forall|c: int| 0 <= c < k.cpus@.len() implies #[trigger] k.cpus@[c].cpu_id == c by {
            assert(k.cpus@[c].cpu_id == c);
        }
        k
    }

    /// Only the round-robin counter differs.
    pub open spec fn same_but_counter(self, other: Kernel) -> bool {
        &&& self.tasks() == other.tasks()
        &&& self.num_cpu() == other.num_cpu()
        &&& self.cur_cpu() == other.cur_cpu()
        &&& forall|c: int| 0 <= c < self.num_cpu() ==> #[trigger] self.cpu(c) == other.cpu(c)
        &&& forall|c: int| 0 <= c < self.num_cpu() ==> #[trigger] self.queue(c) == other.queue(c)
    }

    /// The CPUs are as before.
    pub open spec fn cpus_same(self, other: Kernel) -> bool {
        &&& self.num_cpu() == other.num_cpu()
        &&& self.cur_cpu() == other.cur_cpu()
        &&& self.next_cpu() == other.next_cpu()
        &&& self.tasks().next_tid() == other.tasks().next_tid()
        &&& forall|c: int| 0 <= c < self.num_cpu() ==> #[trigger] self.cpu(c) == other.cpu(c)
    }

    /// Every run queue but the one of CPU `c` is as before.
    pub open spec fn queues_but(self, other: Kernel, c: int) -> bool {
        forall|d: int| 0 <= d < self.num_cpu() && d != c ==> #[trigger] self.queue(d) == other.queue(d)
    }

    /// Changing one run queue and some task records keeps the kernel well
    /// formed as long as the table keeps its keys, CPU numbers stay in range
    /// and the changed queue holds only known tasks.
    proof fn lemma_step_wf(self, old_k: Kernel, c: int)
        requires
            old_k.wf(),
            0 <= c < old_k.num_cpu(),
            self.tasks.wf(),
            self.tasks@.dom() == old_k.tasks@.dom(),
            forall|t: u32| #[trigger] self.tasks@.contains_key(t) ==> (self.tasks@[t].on_cpu matches Some(cc) ==> cc < self.cpus@.len()),
            self.cpus == old_k.cpus,
            self.cur_cpu == old_k.cur_cpu,
            self.schedulers@.len() == old_k.schedulers@.len(),
            forall|d: int| 0 <= d < self.schedulers@.len() && d != c ==> #[trigger] self.schedulers@[d] == old_k.schedulers@[d],
            forall|t: u32| #[trigger] self.schedulers@[c].queue().contains(t) ==> self.tasks@.contains_key(t),
        ensures
            self.wf(),
    {
        assert forall|d: int, t: u32| 0 <= d < self.cpus@.len() && #[trigger] self.schedulers@[d].queue().contains(t)
            implies self.tasks@.contains_key(t) by {
            if d != c {
                assert(self.schedulers@[d] == old_k.schedulers@[d]);
                assert(old_k.schedulers@[d].queue().contains(t));
                assert(old_k.tasks@.contains_key(t));
            }
        }
    }

    /// Filtering a queue keeps only tasks that were queued before.
    proof fn lemma_filtered_in_table(old_k: Kernel, c: int, tid: u32, q: Seq<u32>)
        requires
            old_k.wf(),
            0 <= c < old_k.num_cpu(),
            q == old_k.schedulers@[c].queue().filter(other_than(tid)),
        ensures
            forall|t: u32| #[trigger] q.contains(t) ==> old_k.tasks@.contains_key(t),
    {
        crate::task_queue::lemma_remove_drops_only_task(old_k.schedulers@[c].queue(), tid);
        assert forall|t: u32| #[trigger] q.contains(t) implies old_k.tasks@.contains_key(t) by {
            assert(t != tid);
            assert(old_k.schedulers@[c].queue().contains(t));
        }
    }

    /// Applies `u` to task `tid`; nothing else changes.
    pub fn update_task(&mut self, tid: u32, u: TaskUpdate)
        requires
            old(self).wf(),
            old(self).tasks()@.contains_key(tid),
        ensures
            final(self).wf(),
            final(self).tasks()@ == old(self).tasks()@.insert(tid, old(self).tasks()@[tid].updated(u)),
            final(self).tasks().next_tid() == old(self).tasks().next_tid(),
            final(self).same_but_tasks(*old(self)),
    {
        self.tasks.update(tid, u);
        proof {
            assert(self.tasks@.dom() =~= old(self).tasks@.dom());
            assert forall|c: int, t: u32| 0 <= c < self.cpus@.len() && #[trigger] self.schedulers@[c].queue().contains(t)
                implies self.tasks@.contains_key(t) by {
                assert(old(self).tasks@.contains_key(t));
            }
            assert forall|t: u32| #[trigger] self.tasks@.contains_key(t) implies (self.tasks@[t].on_cpu matches Some(cc) ==> cc < self.cpus@.len()) by {
                assert(old(self).tasks@.contains_key(t));
            }
        }
    }

    /// Activates address space `space` on the CPU this code runs on.
    pub fn switch_current_space(&mut self, space: u64)
        requires
            old(self).wf(),
        ensures
            final(self).wf(),
            final(self).tasks() == old(self).tasks(),
            final(self).cpu(old(self).cur_cpu() as int) == (Cpu { current_memory_space: Some(space), ..old(self).cpu(old(self).cur_cpu() as int) }),
            forall|c: int| 0 <= c < old(self).num_cpu() && c != old(self).cur_cpu() ==> #[trigger] final(self).cpu(c) == old(self).cpu(c),
            final(self).num_cpu() == old(self).num_cpu(),
            final(self).cur_cpu() == old(self).cur_cpu(),
            final(self).queues_but(*old(self), -1),
    {
        let c = self.cur_cpu;
        let mut cpu = self.cpus.remove(c);
        cpu.switch_space(space);
        self.cpus.insert(c, cpu);
        proof {
            assert(self.cpus@ =~= old(self).cpus@.update(c as int, self.cpus@[c as int]));
        }
    }

    /// Records `code` as the exit code of `tid` and marks it a zombie, in the
    /// table only (the run queue is `exit_task`'s business).
    pub fn set_exit_code(&mut self, tid: u32, code: i32)
        requires
            old(self).wf(),
            old(self).tasks()@.contains_key(tid),
        ensures
            final(self).wf(),
            final(self).tasks()@ == old(self).tasks()@.insert(tid, old(self).tasks()@[tid].with_exit(code)),
            final(self).tasks().next_tid() == old(self).tasks().next_tid(),
            final(self).same_but_tasks(*old(self)),
    {
        self.tasks.exit_task(tid, code);
        proof {
            assert(self.tasks@.dom() =~= old(self).tasks@.dom());
            assert forall|c: int, t: u32| 0 <= c < self.cpus@.len() && #[trigger] self.schedulers@[c].queue().contains(t)
                implies self.tasks@.contains_key(t) by {
                assert(old(self).tasks@.contains_key(t));
            }
            assert forall|t: u32| #[trigger] self.tasks@.contains_key(t) implies (self.tasks@[t].on_cpu matches Some(cc) ==> cc < self.cpus@.len()) by {
                assert(old(self).tasks@.contains_key(t));
            }
        }
    }

    /// Marks `signal` pending for `tid`, as `TaskManager::send_signal`.
    pub fn mark_signal(&mut self, tid: u32, signal: usize) -> (r: bool)
        requires
            old(self).wf(),
        ensures
            final(self).wf(),
            r == (valid_signal(signal) && old(self).tasks()@.contains_key(tid)),
            r ==> final(self).tasks()@ == old(self).tasks()@.insert(tid,
                old(self).tasks()@[tid].with_pending(old(self).tasks()@[tid].pending | sig_bit(signal))),
            !r ==> final(self).tasks()@ == old(self).tasks()@,
            final(self).tasks().next_tid() == old(self).tasks().next_tid(),
            final(self).same_but_tasks(*old(self)),
    {
        let r = self.tasks.send_signal(tid, signal);
        proof {
            assert(self.tasks@.dom() =~= old(self).tasks@.dom());
            assert forall|c: int, t: u32| 0 <= c < self.cpus@.len() && #[trigger] self.schedulers@[c].queue().contains(t)
                implies self.tasks@.contains_key(t) by {
                assert(old(self).tasks@.contains_key(t));
            }
            assert forall|t: u32| #[trigger] self.tasks@.contains_key(t) implies (self.tasks@[t].on_cpu matches Some(cc) ==> cc < self.cpus@.len()) by {
                assert(old(self).tasks@.contains_key(t));
            }
        }
        r
    }

    /// Takes the front waiter off the `wait_child` queue of `tid`.
    pub fn pop_wait_child(&mut self, tid: u32) -> (r: Option<u32>)
        requires
            old(self).wf(),
            old(self).tasks()@.contains_key(tid),
        ensures
            final(self).wf(),
            final(self).tasks().next_tid() == old(self).tasks().next_tid(),
            final(self).same_but_tasks(*old(self)),
            final(self).tasks()@.dom() == old(self).tasks()@.dom(),
            forall|t: u32| t != tid ==> final(self).tasks()@.get(t) == old(self).tasks()@.get(t),
            final(self).tasks()@[tid].with_wait_child_of(old(self).tasks()@[tid]) == old(self).tasks()@[tid],
            old(self).tasks()@[tid].wait_child@.len() > 0 ==> r == Some(old(self).tasks()@[tid].wait_child@[0])
                && final(self).tasks()@[tid].wait_child@ == old(self).tasks()@[tid].wait_child@.drop_first(),
            old(self).tasks()@[tid].wait_child@.len() == 0 ==> r is None
                && final(self).tasks()@[tid].wait_child@ == old(self).tasks()@[tid].wait_child@,
    {
        let r = self.tasks.pop_wait_child(tid);
        proof {
            assert forall|c: int, t: u32| 0 <= c < self.cpus@.len() && #[trigger] self.schedulers@[c].queue().contains(t)
                implies self.tasks@.contains_key(t) by {
                assert(old(self).tasks@.contains_key(t));
            }
            assert forall|t: u32| #[trigger] self.tasks@.contains_key(t) implies (self.tasks@[t].on_cpu matches Some(cc) ==> cc < self.cpus@.len()) by {
                assert(old(self).tasks@.contains_key(t));
                if t != tid {
                    assert(self.tasks@.get(t) == old(self).tasks@.get(t));
                } else {
                    assert(self.tasks@[tid].with_wait_child_of(old(self).tasks@[tid]).on_cpu == self.tasks@[tid].on_cpu);
                }
            }
        }
        r
    }

    /// Queues `waiter` on the `wait_child` queue of `tid` unless it waits there already.
    pub fn add_wait_child(&mut self, tid: u32, waiter: u32)
        requires
            old(self).wf(),
            old(self).tasks()@.contains_key(tid),
        ensures
            final(self).wf(),
            final(self).tasks().next_tid() == old(self).tasks().next_tid(),
            final(self).same_but_tasks(*old(self)),
            final(self).tasks()@.dom() == old(self).tasks()@.dom(),
            forall|t: u32| t != tid ==> final(self).tasks()@.get(t) == old(self).tasks()@.get(t),
            final(self).tasks()@[tid].with_wait_child_of(old(self).tasks()@[tid]) == old(self).tasks()@[tid],
            final(self).tasks()@[tid].wait_child@ == if old(self).tasks()@[tid].wait_child@.contains(waiter) {
                old(self).tasks()@[tid].wait_child@
            } else {
                old(self).tasks()@[tid].wait_child@.push(waiter)
            },
    {
        self.tasks.add_wait_child(tid, waiter);
        proof {
            assert forall|c: int, t: u32| 0 <= c < self.cpus@.len() && #[trigger] self.schedulers@[c].queue().contains(t)
                implies self.tasks@.contains_key(t) by {
                assert(old(self).tasks@.contains_key(t));
            }
            assert forall|t: u32| #[trigger] self.tasks@.contains_key(t) implies (self.tasks@[t].on_cpu matches Some(cc) ==> cc < self.cpus@.len()) by {
                assert(old(self).tasks@.contains_key(t));
                if t != tid {
                    assert(self.tasks@.get(t) == old(self).tasks@.get(t));
                } else {
                    assert(self.tasks@[tid].with_wait_child_of(old(self).tasks@[tid]).on_cpu == self.tasks@[tid].on_cpu);
                }
            }
        }
    }

    /// Drops the record of `tid` from the table unless a run queue or a CPU
    /// still refers to it; says whether it did.
    pub fn release_task(&mut self, tid: u32) -> (r: bool)
        requires
            old(self).wf(),
        ensures
            final(self).wf(),
            r == !referenced(*old(self), tid),
            r ==> final(self).tasks()@ == old(self).tasks()@.remove(tid),
            !r ==> final(self).tasks()@ == old(self).tasks()@,
            final(self).tasks().next_tid() == old(self).tasks().next_tid(),
            final(self).same_but_tasks(*old(self)),
    {
        let n = self.cpus.len();
        let mut c: usize = 0;
        while c < n
            invariant
                self.wf(),
                *self == *old(self),
                n == self.cpus@.len(),
                c <= n,
                forall|d: int| 0 <= d < c ==> !(#[trigger] self.queue(d)).contains(tid)
                    && self.cpu(d).current_task != Some(tid) && self.cpu(d).idle_task != Some(tid),
            decreases n - c,
        {
            if self.schedulers[c].contains(tid) || self.cpus[c].current_task == Some(tid)
                || self.cpus[c].idle_task == Some(tid) {
                proof {
                    assert(self.queue(c as int).contains(tid) || self.cpu(c as int).current_task == Some(tid)
                        || self.cpu(c as int).idle_task == Some(tid));
                    assert(0 <= c < old(self).num_cpu());
                    assert(old(self).queue(c as int) == self.queue(c as int));
                    assert(referenced(*old(self), tid));
                }
                return false;
            }
            c = c + 1;
        }
        let ghost k0 = *self;
        self.tasks.release_task(tid);
        proof {
            let ok = *old(self);
            assert(!referenced(ok, tid)) by {
                assert forall|d: int| 0 <= d < ok.num_cpu() implies !(#[trigger] ok.queue(d).contains(tid)
                    || ok.cpu(d).current_task == Some(tid) || ok.cpu(d).idle_task == Some(tid)) by {
                    assert(k0.queue(d) == ok.queue(d));
                }
            }
            assert forall|d: int, t: u32| 0 <= d < self.cpus@.len() && #[trigger] self.schedulers@[d].queue().contains(t)
                implies self.tasks@.contains_key(t) by {
                assert(ok.tasks@.contains_key(t));
                assert(k0.queue(d) == self.schedulers@[d].queue());
                assert(!k0.queue(d).contains(tid));
            }
            assert forall|t: u32| #[trigger] self.tasks@.contains_key(t) implies (self.tasks@[t].on_cpu matches Some(cc) ==> cc < self.cpus@.len()) by {
                assert(ok.tasks@.contains_key(t));
            }
            assert forall|d: int| 0 <= d < self.cpus@.len() implies (#[trigger] self.cpus@[d].current_task matches Some(x) ==> self.tasks@.contains_key(x)) by {
                assert(k0.cpu(d) == self.cpus@[d]);
                assert(!k0.queue(d).contains(tid));
                assert(k0.cpu(d).current_task != Some(tid));
                assert(ok.cpus@[d] == self.cpus@[d]);
            }
            assert forall|d: int| 0 <= d < self.cpus@.len() implies (#[trigger] self.cpus@[d].idle_task matches Some(x) ==> self.tasks@.contains_key(x)) by {
                assert(k0.cpu(d) == self.cpus@[d]);
                assert(!k0.queue(d).contains(tid));
                assert(k0.cpu(d).idle_task != Some(tid));
                assert(ok.cpus@[d] == self.cpus@[d]);
            }
        }
        true
    }

    /// Hands out the next task id.
    pub fn allocate_tid(&mut self) -> (tid: u32)
        requires
            old(self).wf(),
        ensures
            final(self).wf(),
            tid == old(self).tasks().next_tid(),
            final(self).tasks()@ == old(self).tasks()@,
            final(self).tasks().next_tid() == (old(self).tasks().next_tid() + 1) % 0x1_0000_0000,
            final(self).same_but_tasks(*old(self)),
    {
        self.tasks.allocate_tid()
    }

    /// The CPU this code runs on exists.
    /// Each task is filed under its own tid.
    pub proof fn lemma_task_tid(self, t: u32)
        requires
            self.wf(),
            self.tasks()@.contains_key(t),
        ensures
            self.tasks()@[t].tid == t,
    {
        self.tasks.lemma_tid(t);
    }

    /// The task table is well formed.
    pub proof fn lemma_tasks_wf(self)
        requires
            self.wf(),
        ensures
            self.tasks().wf(),
    {
    }

    /// The home CPU of a filed task exists.
    pub proof fn lemma_home_cpu_in_range(self, tid: u32)
        requires
            self.wf(),
            self.tasks()@.contains_key(tid),
        ensures
            0 <= home_cpu(self, tid) < self.num_cpu(),
    {
    }

    pub proof fn lemma_cur_cpu_in_range(self)
        requires
            self.wf(),
        ensures
            self.cur_cpu() < self.num_cpu(),
            self.num_cpu() > 0,
    {
    }

    /// The task running on this CPU is in the task table.
    pub proof fn lemma_current_known(self)
        requires
            self.wf(),
            has_current(self),
        ensures
            self.tasks()@.contains_key(cur(self)),
    {
        assert(self.cpus@[self.cur_cpu as int].current_task matches Some(t) ==> self.tasks@.contains_key(t));
    }

    /// Only task records changed.
    pub open spec fn same_but_tasks(self, other: Kernel) -> bool {
        &&& self.num_cpu() == other.num_cpu()
        &&& self.cur_cpu() == other.cur_cpu()
        &&& self.next_cpu() == other.next_cpu()
        &&& forall|c: int| 0 <= c < self.num_cpu() ==> #[trigger] self.cpu(c) == other.cpu(c)
        &&& forall|c: int| 0 <= c < self.num_cpu() ==> #[trigger] self.queue(c) == other.queue(c)
    }

    /// The task table.
    pub fn task_manager(&self) -> (r: &TaskManager)
        ensures
            *r == self.tasks(),
    {
        &self.tasks
    }
}

/// The task running on this CPU, if any.
pub fn try_current_task(k: &Kernel) -> (t: Option<u32>)
    requires
        k.wf(),
    ensures
        t == k.cpu(k.cur_cpu() as int).current_task,
        t matches Some(x) ==> k.tasks()@.contains_key(x),
{
    k.cpus[k.cur_cpu].current_task
}

/// Whether a run queue or a CPU refers to `tid`.
pub open spec fn referenced(k: Kernel, tid: u32) -> bool {
    exists|c: int| 0 <= c < k.num_cpu() && (#[trigger] k.queue(c).contains(tid)
        || k.cpu(c).current_task == Some(tid) || k.cpu(c).idle_task == Some(tid))
}

/// Changing task records alone does not change what the CPUs refer to.
pub proof fn lemma_referenced_same(a: Kernel, b: Kernel, tid: u32)
    requires
        a.same_but_tasks(b),
    ensures
        referenced(a, tid) == referenced(b, tid),
{
    if referenced(a, tid) {
        let d = choose|d: int| 0 <= d < a.num_cpu() && (#[trigger] a.queue(d).contains(tid)
            || a.cpu(d).current_task == Some(tid) || a.cpu(d).idle_task == Some(tid));
        assert(a.queue(d) == b.queue(d));
        assert(a.cpu(d) == b.cpu(d));
        assert(b.queue(d).contains(tid) || b.cpu(d).current_task == Some(tid) || b.cpu(d).idle_task == Some(tid));
    }
    if referenced(b, tid) {
        let d = choose|d: int| 0 <= d < b.num_cpu() && (#[trigger] b.queue(d).contains(tid)
            || b.cpu(d).current_task == Some(tid) || b.cpu(d).idle_task == Some(tid));
        assert(a.queue(d) == b.queue(d));
        assert(a.cpu(d) == b.cpu(d));
        assert(a.queue(d).contains(tid) || a.cpu(d).current_task == Some(tid) || a.cpu(d).idle_task == Some(tid));
    }
}

/// Whether this CPU runs a task: the condition of every system call.
pub open spec fn has_current(k: Kernel) -> bool {
    k.cpu(k.cur_cpu() as int).current_task is Some
}

/// The task running on this CPU.
pub open spec fn cur(k: Kernel) -> u32 {
    k.cpu(k.cur_cpu() as int).current_task->0
}

/// The task running on this CPU; there must be one.
pub fn current_task(k: &Kernel) -> (t: u32)
    requires
        k.wf(),
        has_current(*k),
    ensures
        t == cur(*k),
        k.tasks()@.contains_key(t),
{
    k.cpus[k.cur_cpu].current_task.unwrap()
}

/// The CPU this code runs on.
pub fn current_cpu(k: &Kernel) -> (c: &Cpu)
    requires
        k.wf(),
    ensures
        *c == k.cpu(k.cur_cpu() as int),
        c.cpu_id == k.cur_cpu(),
{
    &k.cpus[k.cur_cpu]
}

/// The number of the CPU this code runs on.
pub fn cpu_id(k: &Kernel) -> (c: usize)
    requires
        k.wf(),
    ensures
        c == k.cur_cpu(),
{
    k.cur_cpu
}

/// CPU `cpu_id`.
pub fn cpu_of(k: &Kernel, cpu_id: usize) -> (c: &Cpu)
    requires
        k.wf(),
        cpu_id < k.num_cpu(),
    ensures
        *c == k.cpu(cpu_id as int),
        c.cpu_id == cpu_id,
{
    &k.cpus[cpu_id]
}

/// The scheduler of the CPU this code runs on.
pub fn current_scheduler(k: &Kernel) -> (s: &RRScheduler)
    requires
        k.wf(),
    ensures
        *s == k.sched(k.cur_cpu() as int),
{
    &k.schedulers[k.cur_cpu]
}

/// The scheduler of CPU `cpu_id`.
pub fn scheduler_of(k: &Kernel, cpu_id: usize) -> (s: &RRScheduler)
    requires
        k.wf(),
        cpu_id < k.num_cpu(),
    ensures
        *s == k.sched(cpu_id as int),
{
    &k.schedulers[cpu_id]
}

/// Picks the CPU for a woken task, round robin over all CPUs.
pub fn pick_cpu(k: &mut Kernel) -> (cpu: usize)
    requires
        old(k).wf(),
    ensures
        final(k).wf(),
        cpu == (old(k).next_cpu() as nat) % old(k).num_cpu(),
        cpu < old(k).num_cpu(),
        final(k).next_cpu() == if old(k).next_cpu() == usize::MAX { 0 } else { (old(k).next_cpu() + 1) as usize },
        final(k).same_but_counter(*old(k)),
{
    let n = k.cpus.len();
    let cpu = k.next_cpu % n;
    k.next_cpu = k.next_cpu.wrapping_add(1);
    cpu
}

/// The CPU whose scheduler holds `tid`: the one it last ran on, else this one.
pub open spec fn home_cpu(k: Kernel, tid: u32) -> int {
    match k.tasks()@[tid].on_cpu {
        Some(c) => c as int,
        None => k.cur_cpu() as int,
    }
}

/// `tid` is now in state `state` and off the run queue of its CPU; nothing
/// else changed.
pub open spec fn state_change_post(old: Kernel, new: Kernel, tid: u32, state: TaskState) -> bool {
    &&& new.tasks()@ == old.tasks()@.insert(tid, old.tasks()@[tid].with_state(state))
    &&& new.queues_but(old, home_cpu(old, tid))
    &&& new.queue(home_cpu(old, tid)) == old.queue(home_cpu(old, tid)).filter(other_than(tid))
    &&& new.cpus_same(old)
}

/// Puts `tid` to sleep and takes it off the run queue of its CPU; the switch
/// away from it happens at the next `schedule`.
pub fn sleep_task(k: &mut Kernel, tid: u32, receive_signal: bool)
    requires
        old(k).wf(),
        old(k).tasks()@.contains_key(tid),
    ensures
        final(k).wf(),
        state_change_post(*old(k), *final(k), tid, sleep_state(receive_signal)),
{
    let c = match k.tasks.get_task(tid).unwrap().on_cpu {
        Some(c) => c,
        None => k.cur_cpu,
    };
    let mut sched = k.schedulers.remove(c);
    sched.sleep_task(&mut k.tasks, tid, receive_signal);
    k.schedulers.insert(c, sched);
    proof {
        assert(k.tasks@.dom() =~= old(k).tasks@.dom());
        assert(k.schedulers@ =~= old(k).schedulers@.update(c as int, k.schedulers@[c as int]));
        Kernel::lemma_filtered_in_table(*old(k), c as int, tid, k.schedulers@[c as int].queue());
        k.lemma_step_wf(*old(k), c as int);
    }
}

/// Whether a task in state `s` gets woken: not when it already runs, nor
/// when it is a zombie or stopped.
pub open spec fn wakeable(s: TaskState) -> bool {
    s == TaskState::Interruptible || s == TaskState::Uninterruptible
}

/// What waking `tid` does: see `wake_up_task`.
pub open spec fn wake_up_post(old: Kernel, new: Kernel, tid: u32, ipi: Option<usize>) -> bool {
    &&& new.next_cpu() == if old.next_cpu() == usize::MAX { 0 } else { (old.next_cpu() + 1) as usize }
    &&& ({
        let target = ((old.next_cpu() as nat) % old.num_cpu()) as int;
        let t = old.tasks()@[tid];
        if wakeable(t.state) {
            &&& new.tasks()@ == old.tasks()@.insert(tid, t.with_on_cpu(Some(target as usize)).with_state(TaskState::Running))
            &&& new.queue(target) == if old.queue(target).contains(tid) {
                old.queue(target)
            } else {
                old.queue(target).push(tid)
            }
            &&& new.queues_but(old, target)
            &&& ipi == if target != old.cur_cpu() { Some(target as usize) } else { None }
        } else {
            &&& new.tasks() == old.tasks()
            &&& new.queues_but(old, -1)
            &&& ipi is None
        }
    })
    &&& new.num_cpu() == old.num_cpu()
    &&& new.cur_cpu() == old.cur_cpu()
    &&& new.tasks().next_tid() == old.tasks().next_tid()
    &&& forall|c: int| 0 <= c < new.num_cpu() ==> #[trigger] new.cpu(c) == old.cpu(c)
}

/// Wakes `tid`: makes it runnable on the next CPU in round-robin order and
/// queues it there, unless it already runs, is stopped or is a zombie, so
/// that waking twice never queues a task twice. Returns the CPU to send a
/// reschedule interrupt to, when that is not this CPU.
pub fn wake_up_task(k: &mut Kernel, tid: u32) -> (ipi: Option<usize>)
    requires
        old(k).wf(),
        old(k).tasks()@.contains_key(tid),
    ensures
        final(k).wf(),
        wake_up_post(*old(k), *final(k), tid, ipi),
{
    let target = pick_cpu(k);
    let state = k.tasks.get_task(tid).unwrap().state;
    if state == TaskState::Running || state == TaskState::Zombie || state == TaskState::Stopped {
        proof {
            assert forall|d: int| 0 <= d < k.num_cpu() && d != -1 implies #[trigger] k.queue(d) == old(k).queue(d) by {}
            assert forall|c: int| 0 <= c < k.num_cpu() implies #[trigger] k.cpu(c) == old(k).cpu(c) by {}
        }
        return None;
    }
    let ghost k1 = *k;
    k.tasks.set_state(tid, TaskState::Running);
    k.tasks.set_on_cpu(tid, Some(target));
    let mut sched = k.schedulers.remove(target);
    sched.wake_up(&mut k.tasks, tid);
    k.schedulers.insert(target, sched);
    proof {
        assert(k.tasks@.dom() =~= old(k).tasks@.dom());
        assert(k.schedulers@ =~= k1.schedulers@.update(target as int, k.schedulers@[target as int]));
        assert(k.tasks@ =~= old(k).tasks@.insert(tid, old(k).tasks@[tid].with_on_cpu(Some(target)).with_state(TaskState::Running)));
        assert forall|t: u32| #[trigger] k.schedulers@[target as int].queue().contains(t) implies k.tasks@.contains_key(t) by {
            if t != tid {
                assert(k1.schedulers@[target as int].queue().contains(t));
            }
        }
        assert forall|t: u32| #[trigger] k.tasks@.contains_key(t) implies (k.tasks@[t].on_cpu matches Some(cc) ==> cc < k.cpus@.len()) by {
            assert(k1.tasks@.contains_key(t));
        }
        k.lemma_step_wf(k1, target as int);
        assert(k1.queue(target as int) == old(k).queue(target as int));
        assert forall|d: int| 0 <= d < k.num_cpu() && d != target implies #[trigger] k.queue(d) == old(k).queue(d) by {
            assert(k1.queue(d) == old(k).queue(d));
        }
        assert forall|c: int| 0 <= c < k.num_cpu() implies #[trigger] k.cpu(c) == old(k).cpu(c) by {
            assert(k1.cpu(c) == old(k).cpu(c));
        }
    }
    if target != k.cur_cpu {
        Some(target)
    } else {
        None
    }
}

/// Marks `tid` a zombie and takes it off the run queue of its CPU.
pub fn exit_task(k: &mut Kernel, tid: u32)
    requires
        old(k).wf(),
        old(k).tasks()@.contains_key(tid),
    ensures
        final(k).wf(),
        state_change_post(*old(k), *final(k), tid, TaskState::Zombie),
{
    let c = match k.tasks.get_task(tid).unwrap().on_cpu {
        Some(c) => c,
        None => k.cur_cpu,
    };
    let mut sched = k.schedulers.remove(c);
    sched.exit_task(&mut k.tasks, tid);
    k.schedulers.insert(c, sched);
    proof {
        assert(k.tasks@.dom() =~= old(k).tasks@.dom());
        assert(k.schedulers@ =~= old(k).schedulers@.update(c as int, k.schedulers@[c as int]));
        Kernel::lemma_filtered_in_table(*old(k), c as int, tid, k.schedulers@[c as int].queue());
        k.lemma_step_wf(*old(k), c as int);
    }
}

/// Puts `tid` to sleep unless `condition_met`, the caller's check made under
/// the scheduler lock, and says whether it slept.
pub fn sleep_task_prepare(k: &mut Kernel, tid: u32, receive_signal: bool, condition_met: bool) -> (slept: bool)
    requires
        old(k).wf(),
        old(k).tasks()@.contains_key(tid),
    ensures
        final(k).wf(),
        slept == !condition_met,
        slept ==> final(k).tasks()@ == old(k).tasks()@.insert(tid, old(k).tasks()@[tid].with_state(sleep_state(receive_signal))),
        slept ==> final(k).queue(home_cpu(*old(k), tid)) == old(k).queue(home_cpu(*old(k), tid)).filter(other_than(tid)),
        !slept ==> final(k).tasks() == old(k).tasks() && final(k).queue(home_cpu(*old(k), tid)) == old(k).queue(home_cpu(*old(k), tid)),
        final(k).queues_but(*old(k), home_cpu(*old(k), tid)),
        final(k).cpus_same(*old(k)),
{
    if condition_met {
        return false;
    }
    sleep_task(k, tid, receive_signal);
    true
}

/// Waking a task twice does no more than waking it once: the second wake
/// finds it running and leaves the tasks and every run queue as they are,
/// so a task is never queued twice by repeated wake-ups.
pub proof fn lemma_wake_up_idempotent(k0: Kernel, k1: Kernel, k2: Kernel, tid: u32,
    ipi1: Option<usize>, ipi2: Option<usize>)
    requires
        k0.wf(),
        k0.tasks()@.contains_key(tid),
        wake_up_post(k0, k1, tid, ipi1),
        wake_up_post(k1, k2, tid, ipi2),
    ensures
        k2.tasks() == k1.tasks(),
        forall|c: int| 0 <= c < k2.num_cpu() ==> #[trigger] k2.queue(c) == k1.queue(c),
        ipi2 is None,
{
    assert(!wakeable(k1.tasks()@[tid].state));
}

/// An exited task stays a zombie: waking it changes nothing.
pub proof fn lemma_zombie_never_woken(k0: Kernel, k1: Kernel, k2: Kernel, tid: u32, ipi: Option<usize>)
    requires
        k0.wf(),
        k0.tasks()@.contains_key(tid),
        state_change_post(k0, k1, tid, TaskState::Zombie),
        wake_up_post(k1, k2, tid, ipi),
    ensures
        k2.tasks() == k1.tasks(),
        k2.tasks()@[tid].state == TaskState::Zombie,
        forall|c: int| 0 <= c < k2.num_cpu() ==> #[trigger] k2.queue(c) == k1.queue(c),
{
}

/// A task put to sleep and then woken runs again and is queued on the CPU
/// that the wake chose, exactly once if it was not queued there before.
pub proof fn lemma_sleep_then_wake(k0: Kernel, k1: Kernel, k2: Kernel, tid: u32, receive_signal: bool,
    ipi: Option<usize>)
    requires
        k0.wf(),
        k0.tasks()@.contains_key(tid),
        state_change_post(k0, k1, tid, sleep_state(receive_signal)),
        wake_up_post(k1, k2, tid, ipi),
    ensures
        k2.tasks()@[tid].state == TaskState::Running,
        k2.tasks()@[tid].on_cpu == Some(((k1.next_cpu() as nat) % k1.num_cpu()) as usize),
        k2.queue(((k1.next_cpu() as nat) % k1.num_cpu()) as int).contains(tid),
{
    let target = ((k1.next_cpu() as nat) % k1.num_cpu()) as int;
    assert(wakeable(k1.tasks()@[tid].state));
    if !k1.queue(target).contains(tid) {
        assert(k2.queue(target)[k1.queue(target).len() as int] == tid);
    }
}

/// Whether the CPU this code runs on may call `schedule`: it runs a known
/// task, and it has an idle task to fall back on when nothing else can run.
pub open spec fn can_schedule(k: Kernel) -> bool {
    let c = k.cur_cpu() as int;
    &&& k.cpu(c).current_task is Some
    &&& (k.queue(c).len() == 0 && k.tasks()@[k.cpu(c).current_task->0].state != TaskState::Running
        ==> k.cpu(c).idle_task is Some)
}

/// What one run of the scheduler on this CPU does, taking `old` to `new`
/// and returning `plan`: none when nothing is queued and the current task
/// still runs; the idle task when nothing is queued and the current task
/// stopped running; otherwise the front of the run queue, with the current
/// task queued at the back if it still runs.
pub open spec fn scheduled(old: Kernel, new: Kernel, plan: Option<SwitchPlan>) -> bool {
    &&& new.num_cpu() == old.num_cpu()
    &&& new.cur_cpu() == old.cur_cpu()
    &&& new.next_cpu() == old.next_cpu()
    &&& new.queues_but(old, old.cur_cpu() as int)
    &&& forall|c: int| 0 <= c < new.num_cpu() && c != old.cur_cpu() ==> #[trigger] new.cpu(c) == old.cpu(c)
    &&& ({
        let c = old.cur_cpu() as int;
        let prev = old.cpu(c).current_task->0;
        let prev_running = old.tasks()@[prev].state == TaskState::Running;
        if old.queue(c).len() == 0 {
            if prev_running {
                &&& plan is None
                &&& new.cpu(c) == old.cpu(c)
                &&& new.tasks() == old.tasks()
                &&& new.queue(c) == old.queue(c)
            } else {
                let idle = old.cpu(c).idle_task->0;
                &&& plan == Some(SwitchPlan { old: prev, new: idle })
                &&& new.cpu(c) == old.cpu(c).switched_to(old.tasks()@[idle])
                &&& new.tasks() == old.tasks()
                &&& new.queue(c) == old.queue(c)
            }
        } else {
            let next = old.queue(c)[0];
            &&& plan == Some(SwitchPlan { old: prev, new: next })
            &&& new.cpu(c) == old.cpu(c).switched_to(old.tasks()@[next])
            &&& new.tasks()@ == old.tasks()@.insert(next, old.tasks()@[next].with_on_cpu(Some(c as usize)))
            &&& new.queue(c) == if prev_running {
                old.queue(c).drop_first().push(prev)
            } else {
                old.queue(c).drop_first()
            }
        }
    })
}

/// Runs the scheduler on this CPU and returns the context switch to make,
/// if any: none when nothing is queued and the current task still runs;
/// otherwise the choice of `RRScheduler::next_task`.
pub fn schedule(k: &mut Kernel) -> (plan: Option<SwitchPlan>)
    requires
        old(k).wf(),
        can_schedule(*old(k)),
    ensures
        final(k).wf(),
        scheduled(*old(k), *final(k), plan),
{
    let c = k.cur_cpu;
    let prev = k.cpus[c].current_task.unwrap();
    let rq_empty = k.schedulers[c].is_empty();
    let cur_running = k.tasks.get_task(prev).unwrap().state == TaskState::Running;
    if rq_empty && cur_running {
        proof {
            assert forall|d: int| 0 <= d < k.num_cpu() && d != c implies #[trigger] k.queue(d) == old(k).queue(d) by {}
        }
        return None;
    }
    let mut sched = k.schedulers.remove(c);
    let mut cpu = k.cpus.remove(c);
    proof {
        if sched.queue().len() > 0 {
            assert(old(k).schedulers@[c as int].queue().contains(sched.queue()[0]));
        }
        if let Some(i) = cpu.idle_task {
            assert(old(k).cpus@[c as int].idle_task == Some(i));
        }
        assert(old(k).cpus@[c as int].current_task == Some(prev));
    }
    let plan = sched.next_task(&mut cpu, &mut k.tasks);
    k.schedulers.insert(c, sched);
    k.cpus.insert(c, cpu);
    proof {
        let ok = *old(k);
        assert(k.schedulers@ =~= ok.schedulers@.update(c as int, k.schedulers@[c as int]));
        assert(k.cpus@ =~= ok.cpus@.update(c as int, k.cpus@[c as int]));
        assert(k.tasks@.dom() =~= ok.tasks@.dom());
        assert forall|d: int, t: u32| 0 <= d < k.cpus@.len() && #[trigger] k.schedulers@[d].queue().contains(t)
            implies k.tasks@.contains_key(t) by {
            if d != c {
                assert(ok.schedulers@[d].queue().contains(t));
            } else if t != prev {
                let q = ok.schedulers@[c as int].queue();
                let j = choose|j: int| 0 <= j < k.schedulers@[d].queue().len() && k.schedulers@[d].queue()[j] == t;
                assert(q[j + 1] == t);
                assert(q.contains(t));
            }
        }
        assert forall|t: u32| #[trigger] k.tasks@.contains_key(t) implies (k.tasks@[t].on_cpu matches Some(cc) ==> cc < k.cpus@.len()) by {
            assert(ok.tasks@.contains_key(t));
        }
        assert forall|d: int| 0 <= d < k.cpus@.len() implies #[trigger] k.cpus@[d].cpu_id == d by {
            if d != c {
                assert(ok.cpus@[d].cpu_id == d);
            }
        }
        assert forall|d: int| 0 <= d < k.cpus@.len() implies (#[trigger] k.cpus@[d].current_task matches Some(t) ==> k.tasks@.contains_key(t)) by {
            if d != c {
                assert(ok.cpus@[d].current_task == k.cpus@[d].current_task);
            } else {
                if ok.schedulers@[c as int].queue().len() > 0 {
                    ok.tasks.lemma_tid(ok.schedulers@[c as int].queue()[0]);
                } else {
                    ok.tasks.lemma_tid(ok.cpus@[c as int].idle_task->0);
                }
            }
        }
        assert forall|d: int| 0 <= d < k.cpus@.len() implies (#[trigger] k.cpus@[d].idle_task matches Some(t) ==> k.tasks@.contains_key(t)) by {
            if d != c {
                assert(ok.cpus@[d].idle_task == k.cpus@[d].idle_task);
            }
        }
        assert forall|d: int| 0 <= d < k.num_cpu() && d != c implies #[trigger] k.queue(d) == ok.queue(d) by {}
        assert forall|d: int| 0 <= d < k.num_cpu() && d != c implies #[trigger] k.cpu(d) == ok.cpu(d) by {}
    }
    plan
}

/// Files a new running task in the table and queues it on CPU `cpu`.
pub fn spawn_task(k: &mut Kernel, task: Task, cpu: usize)
    requires
        old(k).wf(),
        cpu < old(k).num_cpu(),
        task.state == TaskState::Running,
    ensures
        final(k).wf(),
        final(k).tasks()@ == old(k).tasks()@.insert(task.tid, task.with_on_cpu(Some(cpu))),
        final(k).tasks().next_tid() == old(k).tasks().next_tid(),
        final(k).queue(cpu as int) == old(k).queue(cpu as int).push(task.tid),
        final(k).queues_but(*old(k), cpu as int),
        final(k).cpus_same(*old(k)),
{
    let tid = task.tid;
    let mut t = task;
    t.on_cpu = Some(cpu);
    k.tasks.add_task(t);
    let mut sched = k.schedulers.remove(cpu);
    sched.add_task(&k.tasks, tid);
    k.schedulers.insert(cpu, sched);
    proof {
        let ok = *old(k);
        assert(k.schedulers@ =~= ok.schedulers@.update(cpu as int, k.schedulers@[cpu as int]));
        assert(k.tasks@.dom() =~= ok.tasks@.dom().insert(tid));
        assert forall|d: int, x: u32| 0 <= d < k.cpus@.len() && #[trigger] k.schedulers@[d].queue().contains(x)
            implies k.tasks@.contains_key(x) by {
            if d != cpu {
                assert(ok.schedulers@[d].queue().contains(x));
            } else if x != tid {
                let j = choose|j: int| 0 <= j < k.schedulers@[d].queue().len() && k.schedulers@[d].queue()[j] == x;
                assert(j < ok.schedulers@[d].queue().len());
                assert(ok.schedulers@[d].queue()[j] == x);
                assert(ok.schedulers@[d].queue().contains(x));
            }
        }
        assert forall|x: u32| #[trigger] k.tasks@.contains_key(x) implies (k.tasks@[x].on_cpu matches Some(cc) ==> cc < k.cpus@.len()) by {
            if x != tid {
                assert(ok.tasks@.contains_key(x));
            }
        }
        assert forall|d: int| 0 <= d < k.cpus@.len() implies (#[trigger] k.cpus@[d].current_task matches Some(x) ==> k.tasks@.contains_key(x)) by {
            assert(ok.cpus@[d].current_task == k.cpus@[d].current_task);
        }
        assert forall|d: int| 0 <= d < k.cpus@.len() implies (#[trigger] k.cpus@[d].idle_task matches Some(x) ==> k.tasks@.contains_key(x)) by {
            assert(ok.cpus@[d].idle_task == k.cpus@[d].idle_task);
        }
        assert forall|d: int| 0 <= d < k.num_cpu() && d != cpu implies #[trigger] k.queue(d) == ok.queue(d) by {}
    }
}

/// Files `idle` as the idle task of this CPU and switches the CPU to it, as
/// the boot CPU does before the first task runs.
pub fn install_idle_task(k: &mut Kernel, idle: Task)
    requires
        old(k).wf(),
        !old(k).tasks()@.contains_key(idle.tid),
    ensures
        final(k).wf(),
        final(k).tasks()@ == old(k).tasks()@.insert(idle.tid, idle.with_on_cpu(Some(old(k).cur_cpu()))),
        final(k).cpu(old(k).cur_cpu() as int) == (Cpu {
            idle_task: Some(idle.tid),
            ..old(k).cpu(old(k).cur_cpu() as int).switched_to(idle)
        }),
        final(k).num_cpu() == old(k).num_cpu(),
        final(k).cur_cpu() == old(k).cur_cpu(),
        final(k).next_cpu() == old(k).next_cpu(),
        final(k).tasks().next_tid() == old(k).tasks().next_tid(),
        final(k).queues_but(*old(k), -1),
        forall|c: int| 0 <= c < old(k).num_cpu() && c != old(k).cur_cpu() ==> #[trigger] final(k).cpu(c) == old(k).cpu(c),
{
    let c = k.cur_cpu;
    let mut t = idle;
    t.on_cpu = Some(c);
    let mut cpu = k.cpus.remove(c);
    cpu.idle_task = Some(t.tid);
    cpu.switch_task(&t);
    k.cpus.insert(c, cpu);
    let tid = t.tid;
    k.tasks.add_task(t);
    proof {
        let ok = *old(k);
        assert(k.cpus@ =~= ok.cpus@.update(c as int, k.cpus@[c as int]));
        assert(k.tasks@.dom() =~= ok.tasks@.dom().insert(tid));
        assert forall|d: int, x: u32| 0 <= d < k.cpus@.len() && #[trigger] k.schedulers@[d].queue().contains(x)
            implies k.tasks@.contains_key(x) by {
            assert(ok.schedulers@[d].queue().contains(x));
        }
        assert forall|x: u32| #[trigger] k.tasks@.contains_key(x) implies (k.tasks@[x].on_cpu matches Some(cc) ==> cc < k.cpus@.len()) by {
            if x != tid {
                assert(ok.tasks@.contains_key(x));
            }
        }
        assert forall|d: int| 0 <= d < k.cpus@.len() implies #[trigger] k.cpus@[d].cpu_id == d by {
            assert(ok.cpus@[d].cpu_id == d);
        }
        assert forall|d: int| 0 <= d < k.cpus@.len() implies (#[trigger] k.cpus@[d].current_task matches Some(x) ==> k.tasks@.contains_key(x)) by {
            if d != c {
                assert(ok.cpus@[d].current_task == k.cpus@[d].current_task);
            }
        }
        assert forall|d: int| 0 <= d < k.cpus@.len() implies (#[trigger] k.cpus@[d].idle_task matches Some(x) ==> k.tasks@.contains_key(x)) by {
            if d != c {
                assert(ok.cpus@[d].idle_task == k.cpus@[d].idle_task);
            }
        }
        assert forall|d: int| 0 <= d < k.num_cpu() && d != -1 implies #[trigger] k.queue(d) == ok.queue(d) by {}
    }
}

/// Gives up the CPU: the same as `schedule`.
pub fn yield_task(k: &mut Kernel) -> (plan: Option<SwitchPlan>)
    requires
        old(k).wf(),
        can_schedule(*old(k)),
    ensures
        final(k).wf(),
        scheduled(*old(k), *final(k), plan),
{
    schedule(k)
}

} // verus!
