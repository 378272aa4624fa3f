//! Tasks, the task id allocator and the task table.

use vstd::prelude::*;
use std::collections::BTreeMap;
use crate::cred::{Credential, spec_root_credential};
use crate::wait_queue::WaitQueue;
use vstd::std_specs::btree::spec_keys_iter;
use vstd::std_specs::iter::IteratorSpec;
use vstd::laws_cmp::obeys_cmp;
use vstd::std_specs::cmp::OrdSpec;
use vstd::std_specs::btree::increasing_seq;

verus! {

broadcast use vstd::std_specs::btree::group_btree_axioms;

/// Scheduling state of a task.
#[derive(Clone, Copy, Debug, PartialEq, Eq, Structural)]
pub enum TaskState {
    /// Running or ready to run.
    Running,
    /// Stopped by a signal.
    Stopped,
    /// Sleeping; a signal can wake it.
    Interruptible,
    /// Sleeping; only the awaited event wakes it.
    Uninterruptible,
    /// Exited and not yet reaped by its parent.
    Zombie,
}

/// The default scheduling policy.
pub const SCHED_NORMAL: i32 = 0;

/// Default file creation mask of a new task.
pub const DEFAULT_UMASK: u32 = 0o022;

/// The kernel's record of one task (a thread; a process is the task whose
/// `pid` equals its `tid`).
pub struct Task {
    pub tid: u32,
    pub pid: u32,
    pub ppid: u32,
    pub pgid: u32,
    pub state: TaskState,
    pub priority: u8,
    pub on_cpu: Option<usize>,
    pub exit_code: Option<i32>,
    pub exit_signal: u8,
    pub children: Vec<u32>,
    pub wait_child: WaitQueue,
    /// The address space, by id; `None` for a kernel thread.
    pub memory_space: Option<u64>,
    pub credential: Credential,
    pub umask: u32,
    /// Signals pending for this thread, bit `n - 1` for signal `n`.
    pub pending: u64,
    /// Signals pending for the whole thread group (kept on the leader).
    pub shared_pending: u64,
    /// The signal mask.
    pub blocked: u64,
    pub sched_policy: i32,
    pub sched_priority: i32,
    pub sched_reset_on_fork: bool,
    /// Soft `RLIMIT_RTPRIO` limit.
    pub rtprio_limit: u64,
    /// Where to write 0 and wake a futex when the thread exits.
    pub clear_child_tid: Option<usize>,
    pub robust_list: Option<usize>,
}

impl Task {
    /// A fresh task in the `Running` state with root credentials.
    pub open spec fn spec_fresh(self, tid: u32, pid: u32, ppid: u32, pgid: u32,
        memory_space: Option<u64>, exit_signal: u8) -> bool {
        &&& self.tid == tid
        &&& self.pid == pid
        &&& self.ppid == ppid
        &&& self.pgid == pgid
        &&& self.state == TaskState::Running
        &&& self.priority == 0
        &&& self.on_cpu is None
        &&& self.exit_code is None
        &&& self.exit_signal == exit_signal
        &&& self.memory_space == memory_space
        &&& self.credential == spec_root_credential()
        &&& self.umask == DEFAULT_UMASK
        &&& self.pending == 0
        &&& self.shared_pending == 0
        &&& self.blocked == 0
        &&& self.sched_policy == SCHED_NORMAL
        &&& self.sched_priority == 0
        &&& !self.sched_reset_on_fork
        &&& self.rtprio_limit == 0
        &&& self.clear_child_tid is None
        &&& self.robust_list is None
        &&& self.wait_child@ == Seq::<u32>::empty()
    }

    fn new(tid: u32, pid: u32, ppid: u32, pgid: u32, children: Vec<u32>,
        memory_space: Option<u64>, exit_signal: u8) -> (t: Task)
        ensures
            t.spec_fresh(tid, pid, ppid, pgid, memory_space, exit_signal),
            t.children@ == children@,
    {
        Task {
            tid,
            pid,
            ppid,
            pgid,
            state: TaskState::Running,
            priority: 0,
            on_cpu: None,
            exit_code: None,
            exit_signal,
            children,
            wait_child: WaitQueue::new(),
            memory_space,
            credential: Credential::root(),
            umask: DEFAULT_UMASK,
            pending: 0,
            shared_pending: 0,
            blocked: 0,
            sched_policy: SCHED_NORMAL,
            sched_priority: 0,
            sched_reset_on_fork: false,
            rtprio_limit: 0,
            clear_child_tid: None,
            robust_list: None,
        }
    }

    /// A kernel thread: no address space, its own process group, no exit signal.
    pub fn ktask_create(tid: u32, pid: u32, ppid: u32, children: Vec<u32>) -> (t: Task)
        ensures
            t.spec_fresh(tid, pid, ppid, tid, None, 0),
            t.children@ == children@,
    {
        Task::new(tid, pid, ppid, tid, children, None, 0)
    }

    /// A user task running in address space `memory_space`.
    pub fn utask_create(tid: u32, pid: u32, ppid: u32, pgid: u32, children: Vec<u32>,
        memory_space: u64, exit_signal: u8) -> (t: Task)
        ensures
            t.spec_fresh(tid, pid, ppid, pgid, Some(memory_space), exit_signal),
            t.children@ == children@,
    {
        Task::new(tid, pid, ppid, pgid, children, Some(memory_space), exit_signal)
    }

    /// A kernel thread that is its own process, for tests.
    pub fn new_dummy_task(tid: u32) -> (t: Task)
        ensures
            t.spec_fresh(tid, tid, 0, 0, None, 0),
            t.children@ == Seq::<u32>::empty(),
    {
        Task::new(tid, tid, 0, 0, Vec::new(), None, 0)
    }

    /// An empty list of children.
    pub fn empty_children() -> (v: Vec<u32>)
        ensures
            v@ == Seq::<u32>::empty(),
    {
        Vec::new()
    }

    pub open spec fn with_state(self, state: TaskState) -> Task {
        Task { state, ..self }
    }

    pub open spec fn with_on_cpu(self, cpu: Option<usize>) -> Task {
        Task { on_cpu: cpu, ..self }
    }

    pub open spec fn with_exit(self, code: i32) -> Task {
        Task { exit_code: Some(code), state: TaskState::Zombie, ..self }
    }

    /// `self` with the `wait_child` queue of `other`.
    pub open spec fn with_wait_child_of(self, other: Task) -> Task {
        Task { wait_child: other.wait_child, ..self }
    }

    pub open spec fn with_blocked(self, blocked: u64) -> Task {
        Task { blocked, ..self }
    }

    pub open spec fn with_shared_pending(self, shared_pending: u64) -> Task {
        Task { shared_pending, ..self }
    }

    pub open spec fn with_clear_child_tid(self, a: Option<usize>) -> Task {
        Task { clear_child_tid: a, ..self }
    }

    pub open spec fn with_pending(self, pending: u64) -> Task {
        Task { pending, ..self }
    }

    /// A kernel thread has no user address space.
    pub fn is_kernel_thread(&self) -> (r: bool)
        ensures
            r == (self.memory_space is None),
    {
        self.memory_space.is_none()
    }

    /// A process is the task whose pid equals its tid.
    pub fn is_process(&self) -> (r: bool)
        ensures
            r == (self.pid == self.tid),
    {
        self.pid == self.tid
    }
}

/// The largest signal number.
pub const NSIG: usize = 64;
/// The signal sent to a parent when a child exits.
pub const SIGCHLD: usize = 17;

/// Signal numbers run from 1 to `NSIG`.
pub open spec fn valid_signal(signal: usize) -> bool {
    1 <= signal <= NSIG
}

/// The bit that stands for `signal` in a signal set.
pub open spec fn sig_bit(signal: usize) -> u64
    recommends
        valid_signal(signal),
{
    1u64 << ((signal - 1) as u64)
}

/// The bit of `signal`, if it is a valid signal number.
pub fn signal_flag(signal: usize) -> (r: Option<u64>)
    ensures
        valid_signal(signal) ==> r == Some(sig_bit(signal)),
        !valid_signal(signal) ==> r is None,
{
    if signal == 0 || signal > NSIG {
        None
    } else {
        let shift: u64 = (signal - 1) as u64;
        Some(1u64 << shift)
    }
}

/// A change to one field group of a task record.
pub enum TaskUpdate {
    Umask(u32),
    Pgid(u32),
    Ppid(u32),
    Credential(Credential),
    /// Policy, priority, reset-on-fork flag and the derived static priority.
    Sched(i32, i32, bool, u8),
    ClearChildTid(Option<usize>),
    RobustList(Option<usize>),
    SharedPending(u64),
    Children(Vec<u32>),
    MemorySpace(Option<u64>),
    Blocked(u64),
    Pending(u64),
}

impl Task {
    /// The record after `u`.
    pub open spec fn updated(self, u: TaskUpdate) -> Task {
        match u {
            TaskUpdate::Umask(m) => Task { umask: m, ..self },
            TaskUpdate::Pgid(g) => Task { pgid: g, ..self },
            TaskUpdate::Ppid(p) => Task { ppid: p, ..self },
            TaskUpdate::Credential(c) => Task { credential: c, ..self },
            TaskUpdate::Sched(policy, prio, reset, sp) => Task {
                sched_policy: policy,
                sched_priority: prio,
                sched_reset_on_fork: reset,
                priority: sp,
                ..self
            },
            TaskUpdate::ClearChildTid(a) => Task { clear_child_tid: a, ..self },
            TaskUpdate::RobustList(a) => Task { robust_list: a, ..self },
            TaskUpdate::SharedPending(p) => Task { shared_pending: p, ..self },
            TaskUpdate::Children(c) => Task { children: c, ..self },
            TaskUpdate::MemorySpace(m) => Task { memory_space: m, ..self },
            TaskUpdate::Blocked(b) => Task { blocked: b, ..self },
            TaskUpdate::Pending(p) => Task { pending: p, ..self },
        }
    }
}

/// Hands out task ids 1, 2, 3, ... in order.
#[derive(Debug)]
pub struct TidAllocator {
    next_tid: u32,
}

impl TidAllocator {
    pub closed spec fn next(&self) -> u32 {
        self.next_tid
    }

    /// A new allocator; its first id is 1.
    pub fn new() -> (a: Self)
        ensures
            a.next() == 1,
    {
        TidAllocator { next_tid: 1 }
    }

    /// The next id; ids wrap around after `u32::MAX` as the counter does.
    pub fn allocate(&mut self) -> (tid: u32)
        ensures
            tid == old(self).next(),
            final(self).next() == (old(self).next() + 1) % 0x1_0000_0000,
    {
        let tid = self.next_tid;
        self.next_tid = self.next_tid.wrapping_add(1);
        tid
    }
}

/// The table of all tasks, keyed by tid.
pub struct TaskManager {
    tid_allocator: TidAllocator,
    tasks: BTreeMap<u32, Task>,
}

impl TaskManager {
    pub closed spec fn view(&self) -> Map<u32, Task> {
        self.tasks@
    }

    pub closed spec fn next_tid(&self) -> u32 {
        self.tid_allocator.next()
    }

    pub closed spec fn wf(&self) -> bool {
        forall|t: u32| #[trigger] self.tasks@.contains_key(t) ==> self.tasks@[t].tid == t
    }

    /// Each task is filed under its own tid.
    pub proof fn lemma_tid(&self, t: u32)
        requires
            self.wf(),
            self@.contains_key(t),
        ensures
            self@[t].tid == t,
    {
    }

    /// An empty table whose first id is 1.
    pub fn new() -> (m: Self)
        ensures
            m.wf(),
            m@ == Map::<u32, Task>::empty(),
            m.next_tid() == 1,
    {
        TaskManager { tid_allocator: TidAllocator::new(), tasks: BTreeMap::new() }
    }

    pub fn allocate_tid(&mut self) -> (tid: u32)
        ensures
            tid == old(self).next_tid(),
            final(self).next_tid() == (old(self).next_tid() + 1) % 0x1_0000_0000,
            final(self)@ == old(self)@,
            final(self).wf() == old(self).wf(),
    {
        self.tid_allocator.allocate()
    }

    /// Adds `task` under its tid, replacing a task with the same tid.
    pub fn add_task(&mut self, task: Task)
        requires
            old(self).wf(),
        ensures
            final(self).wf(),
            final(self)@ == old(self)@.insert(task.tid, task),
            final(self).next_tid() == old(self).next_tid(),
    {
        let tid = task.tid;
        self.tasks.insert(tid, task);
    }

    /// The task with id `tid`.
    pub fn get_task(&self, tid: u32) -> (r: Option<&Task>)
        ensures
            match r {
                Some(t) => self@.contains_key(tid) && *t == self@[tid],
                None => !self@.contains_key(tid),
            },
    {
        self.tasks.get(&tid)
    }

    /// Whether a task with id `tid` exists.
    pub fn contains(&self, tid: u32) -> (r: bool)
        ensures
            r == self@.contains_key(tid),
    {
        self.tasks.contains_key(&tid)
    }

    /// Removes the task `tid` from the table and hands it over.
    pub fn take_task(&mut self, tid: u32) -> (r: Option<Task>)
        requires
            old(self).wf(),
        ensures
            final(self).wf(),
            final(self)@ == old(self)@.remove(tid),
            final(self).next_tid() == old(self).next_tid(),
            match r {
                Some(t) => old(self)@.contains_key(tid) && t == old(self)@[tid],
                None => !old(self)@.contains_key(tid),
            },
    {
        self.tasks.remove(&tid)
    }

    /// Records the exit code of `tid` and marks it a zombie; nothing happens
    /// when there is no such task.
    pub fn exit_task(&mut self, tid: u32, code: i32)
        requires
            old(self).wf(),
        ensures
            final(self).wf(),
            final(self).next_tid() == old(self).next_tid(),
            old(self)@.contains_key(tid) ==> final(self)@ == old(self)@.insert(
                tid,
                old(self)@[tid].with_exit(code),
            ),
            !old(self)@.contains_key(tid) ==> final(self)@ == old(self)@,
    {
        if let Some(mut t) = self.tasks.remove(&tid) {
            t.exit_code = Some(code);
            t.state = TaskState::Zombie;
            self.tasks.insert(tid, t);
        } else {
            assert(self.tasks@ =~= old(self)@);
        }
    }

    /// Drops the task `tid` from the table.
    pub fn release_task(&mut self, tid: u32)
        requires
            old(self).wf(),
        ensures
            final(self).wf(),
            final(self)@ == old(self)@.remove(tid),
            final(self).next_tid() == old(self).next_tid(),
    {
        self.tasks.remove(&tid);
    }

    /// Applies `u` to the task `tid`.
    pub fn update(&mut self, tid: u32, u: TaskUpdate)
        requires
            old(self).wf(),
            old(self)@.contains_key(tid),
        ensures
            final(self).wf(),
            final(self).next_tid() == old(self).next_tid(),
            final(self)@ == old(self)@.insert(tid, old(self)@[tid].updated(u)),
    {
        let mut t = self.tasks.remove(&tid).unwrap();
        match u {
            TaskUpdate::Umask(m) => t.umask = m,
            TaskUpdate::Pgid(g) => t.pgid = g,
            TaskUpdate::Ppid(p) => t.ppid = p,
            TaskUpdate::Credential(c) => t.credential = c,
            TaskUpdate::Sched(policy, prio, reset, sp) => {
                t.sched_policy = policy;
                t.sched_priority = prio;
                t.sched_reset_on_fork = reset;
                t.priority = sp;
            },
            TaskUpdate::ClearChildTid(a) => t.clear_child_tid = a,
            TaskUpdate::RobustList(a) => t.robust_list = a,
            TaskUpdate::SharedPending(p) => t.shared_pending = p,
            TaskUpdate::Children(c) => t.children = c,
            TaskUpdate::MemorySpace(m) => t.memory_space = m,
            TaskUpdate::Blocked(b) => t.blocked = b,
            TaskUpdate::Pending(p) => t.pending = p,
        }
        self.tasks.insert(tid, t);
    }

    /// Takes the front waiter off the `wait_child` queue of `tid`.
    pub fn pop_wait_child(&mut self, tid: u32) -> (r: Option<u32>)
        requires
            old(self).wf(),
            old(self)@.contains_key(tid),
        ensures
            final(self).wf(),
            final(self).next_tid() == old(self).next_tid(),
            final(self)@.dom() == old(self)@.dom(),
            forall|t: u32| t != tid ==> final(self)@.get(t) == old(self)@.get(t),
            final(self)@[tid].with_wait_child_of(old(self)@[tid]) == old(self)@[tid],
            old(self)@[tid].wait_child@.len() == 0 ==> r is None && final(self)@[tid].wait_child@ == old(self)@[tid].wait_child@,
            old(self)@[tid].wait_child@.len() > 0 ==> r == Some(old(self)@[tid].wait_child@[0])
                && final(self)@[tid].wait_child@ == old(self)@[tid].wait_child@.drop_first(),
    {
        let mut t = self.tasks.remove(&tid).unwrap();
        let r = t.wait_child.pop_task_no_wake();
        self.tasks.insert(tid, t);
        proof {
            assert(self.tasks@.dom() =~= old(self).tasks@.dom());
        }
        r
    }

    /// Queues `waiter` on the `wait_child` queue of `tid` unless it waits there already.
    pub fn add_wait_child(&mut self, tid: u32, waiter: u32)
        requires
            old(self).wf(),
            old(self)@.contains_key(tid),
        ensures
            final(self).wf(),
            final(self).next_tid() == old(self).next_tid(),
            final(self)@.dom() == old(self)@.dom(),
            forall|t: u32| t != tid ==> final(self)@.get(t) == old(self)@.get(t),
            final(self)@[tid].with_wait_child_of(old(self)@[tid]) == old(self)@[tid],
            final(self)@[tid].wait_child@ == if old(self)@[tid].wait_child@.contains(waiter) {
                old(self)@[tid].wait_child@
            } else {
                old(self)@[tid].wait_child@.push(waiter)
            },
    {
        let mut t = self.tasks.remove(&tid).unwrap();
        if !t.wait_child.contains(waiter) {
            t.wait_child.add_task(waiter);
        }
        self.tasks.insert(tid, t);
        proof {
            assert(self.tasks@.dom() =~= old(self).tasks@.dom());
        }
    }

    /// Sets the state of `tid`.
    pub fn set_state(&mut self, tid: u32, state: TaskState)
        requires
            old(self).wf(),
            old(self)@.contains_key(tid),
        ensures
            final(self).wf(),
            final(self).next_tid() == old(self).next_tid(),
            final(self)@ == old(self)@.insert(tid, old(self)@[tid].with_state(state)),
    {
        let mut t = self.tasks.remove(&tid).unwrap();
        t.state = state;
        self.tasks.insert(tid, t);
    }

    /// Sets the CPU of `tid`.
    pub fn set_on_cpu(&mut self, tid: u32, cpu: Option<usize>)
        requires
            old(self).wf(),
            old(self)@.contains_key(tid),
        ensures
            final(self).wf(),
            final(self).next_tid() == old(self).next_tid(),
            final(self)@ == old(self)@.insert(tid, old(self)@[tid].with_on_cpu(cpu)),
    {
        let mut t = self.tasks.remove(&tid).unwrap();
        t.on_cpu = cpu;
        self.tasks.insert(tid, t);
    }

    /// Marks `signal` pending for `tid`; `false`, with nothing changed, when
    /// the signal number is not valid or the task does not exist.
    pub fn send_signal(&mut self, tid: u32, signal: usize) -> (r: bool)
        requires
            old(self).wf(),
        ensures
            final(self).wf(),
            final(self).next_tid() == old(self).next_tid(),
            r == (valid_signal(signal) && old(self)@.contains_key(tid)),
            r ==> final(self)@ == old(self)@.insert(
                tid,
                old(self)@[tid].with_pending(old(self)@[tid].pending | sig_bit(signal)),
            ),
            !r ==> final(self)@ == old(self)@,
    {
        match signal_flag(signal) {
            Some(bit) => {
                match self.tasks.remove(&tid) {
                    Some(mut t) => {
                        t.pending = t.pending | bit;
                        self.tasks.insert(tid, t);
                        true
                    },
                    None => {
                        assert(self.tasks@ =~= old(self)@);
                        false
                    },
                }
            },
            None => false,
        }
    }

    /// The number of tasks.
    pub fn task_count(&self) -> (n: usize)
        ensures
            n == self@.len(),
    {
        self.tasks.len()
    }

    /// The tids of the threads of process `pid` (the tasks whose pid is `pid`).
    pub fn get_process_threads(&self, pid: u32) -> (v: Vec<u32>)
        ensures
            forall|t: u32| v@.contains(t) <==> (self@.contains_key(t) && self@[t].pid == pid),
            v@.no_duplicates(),
    {
        let mut v: Vec<u32> = Vec::new();
        let ghost ks = spec_keys_iter(&self.tasks).remaining().unref();
        for k in it: self.tasks.keys()
            invariant
                it.seq().unref() == ks,
                ks.to_set() == self@.dom(),
                ks.no_duplicates(),
                v@ == ks.take(it.index() as int).filter(|t: u32| self@[t].pid == pid),
        {
            let t = *k;
            proof {
                assert(ks.take(it.index() as int + 1) =~= ks.take(it.index() as int).push(t));
                ks.take(it.index() as int).lemma_filter_push(t, |t: u32| self@[t].pid == pid);
            }
            let task = self.tasks.get(&t).unwrap();
            if task.pid == pid {
                v.push(t);
            }
        }
        proof {
            assert(ks.take(ks.len() as int) =~= ks);
            lemma_filter_keys(ks, |t: u32| self@[t].pid == pid);
        }
        v
    }

    /// The children list of `tid` (empty when there is no such task).
    pub fn get_process_children(&self, tid: u32) -> (v: Vec<u32>)
        ensures
            self@.contains_key(tid) ==> v@ == self@[tid].children@,
            !self@.contains_key(tid) ==> v@ == Seq::<u32>::empty(),
    {
        match self.tasks.get(&tid) {
            Some(t) => t.children.clone(),
            None => Vec::new(),
        }
    }

    /// The pids of all processes (tasks whose pid equals their tid), in
    /// strictly increasing order.
    pub fn list_process_pids_snapshot(&self) -> (v: Vec<u32>)
        requires
            self.wf(),
        ensures
            forall|p: u32| v@.contains(p) <==> (self@.contains_key(p) && self@[p].pid == p),
            forall|i: int, j: int| 0 <= i < j < v@.len() ==> v@[i] < v@[j],
    {
        let mut v: Vec<u32> = Vec::new();
        let ghost ks = spec_keys_iter(&self.tasks).remaining().unref();
        proof {
            lemma_keys_increasing(spec_keys_iter(&self.tasks).remaining());
        }
        for k in it: self.tasks.keys()
            invariant
                self.wf(),
                it.seq().unref() == ks,
                ks.to_set() == self@.dom(),
                ks.no_duplicates(),
                forall|i: int, j: int| 0 <= i < j < ks.len() ==> ks[i] < ks[j],
                v@ == ks.take(it.index() as int).filter(|t: u32| self@[t].pid == t),
        {
            let t = *k;
            proof {
                assert(ks.take(it.index() as int + 1) =~= ks.take(it.index() as int).push(t));
                ks.take(it.index() as int).lemma_filter_push(t, |t: u32| self@[t].pid == t);
            }
            let task = self.tasks.get(&t).unwrap();
            if task.pid == task.tid {
                v.push(t);
            }
        }
        proof {
            assert(ks.take(ks.len() as int) =~= ks);
            lemma_filter_keys(ks, |t: u32| self@[t].pid == t);
            lemma_filter_sorted(ks, |t: u32| self@[t].pid == t);
        }
        v
    }

    /// Every tid in the table, in increasing order.
    pub fn get_all_tasks(&self) -> (v: Vec<u32>)
        ensures
            v@.to_set() == self@.dom(),
            v@.no_duplicates(),
    {
        let mut v: Vec<u32> = Vec::new();
        let ghost ks = spec_keys_iter(&self.tasks).remaining().unref();
        for k in it: self.tasks.keys()
            invariant
                it.seq().unref() == ks,
                v@ == ks.take(it.index() as int),
        {
            proof {
                assert(ks.take(it.index() as int).push(*k) =~= ks.take(it.index() + 1));
            }
            v.push(*k);
        }
        assert(v@ =~= ks);
        v
    }
}

/// The keys of the table come out in increasing order.
proof fn lemma_keys_increasing(rem: Seq<&u32>)
    requires
        increasing_seq(rem),
    ensures
        forall|i: int, j: int| 0 <= i < j < rem.unref().len() ==> rem.unref()[i] < rem.unref()[j],
{
    broadcast use vstd::laws_cmp::group_laws_cmp;
    broadcast use vstd::laws_cmp::lemma_ref_obeys_cmp_spec;

    assert(obeys_cmp::<u32>());
    assert(obeys_cmp::<&u32>());
    vstd::std_specs::btree::axiom_increasing_seq_meaning::<&u32>(rem);
    assert forall|i: int, j: int| 0 <= i < j < rem.unref().len() implies rem.unref()[i] < rem.unref()[j] by {
        assert(rem.unref().len() == rem.len());
        assert((&rem[i]).cmp_spec(&rem[j]) is Less);
        assert(rem.unref()[i] == *rem[i]);
        assert(rem.unref()[j] == *rem[j]);
    }
}

/// Filtering a duplicate-free key sequence keeps exactly the keys that
/// pass, without duplicates.
proof fn lemma_filter_keys(ks: Seq<u32>, p: spec_fn(u32) -> bool)
    requires
        ks.no_duplicates(),
    ensures
        forall|t: u32| ks.filter(p).contains(t) <==> (ks.contains(t) && p(t)),
        ks.filter(p).no_duplicates(),
    decreases ks.len(),
{
    reveal(Seq::filter);
    if ks.len() > 0 {
        let init = ks.drop_last();
        assert(init.no_duplicates());
        lemma_filter_keys(init, p);
        assert(init.push(ks.last()) =~= ks);
        init.lemma_filter_push(ks.last(), p);
        assert forall|t: u32| ks.filter(p).contains(t) <==> (ks.contains(t) && p(t)) by {
            if ks.contains(t) && !init.contains(t) {
                assert(ks.last() == t);
            }
            if init.contains(t) {
                let j = choose|j: int| 0 <= j < init.len() && init[j] == t;
                assert(ks[j] == t);
            }
            if ks.filter(p).contains(t) && t == ks.last() {
                assert(ks.contains(t));
            }
        }
        if p(ks.last()) {
            assert(!init.contains(ks.last()));
        }
    } else {
        assert(ks.filter(p) =~= ks);
    }
}

/// Filtering a strictly increasing sequence leaves it strictly increasing.
proof fn lemma_filter_sorted(ks: Seq<u32>, p: spec_fn(u32) -> bool)
    requires
        forall|i: int, j: int| 0 <= i < j < ks.len() ==> ks[i] < ks[j],
    ensures
        forall|i: int, j: int| 0 <= i < j < ks.filter(p).len() ==> ks.filter(p)[i] < ks.filter(p)[j],
        forall|x: u32| ks.filter(p).contains(x) ==> ks.contains(x),
    decreases ks.len(),
{
    reveal(Seq::filter);
    if ks.len() > 0 {
        let init = ks.drop_last();
        lemma_filter_sorted(init, p);
        assert(init.push(ks.last()) =~= ks);
        init.lemma_filter_push(ks.last(), p);
        assert forall|x: u32| ks.filter(p).contains(x) implies ks.contains(x) by {
            if init.filter(p).contains(x) {
                assert(init.contains(x));
                let j = choose|j: int| 0 <= j < init.len() && init[j] == x;
                assert(ks[j] == x);
            } else {
                let j = choose|j: int| 0 <= j < ks.filter(p).len() && ks.filter(p)[j] == x;
                assert(x == ks.last());
                assert(ks[ks.len() - 1] == x);
            }
        }
        if p(ks.last()) {
            assert forall|i: int| 0 <= i < init.filter(p).len() implies init.filter(p)[i] < ks.last() by {
                let x = init.filter(p)[i];
                assert(init.filter(p).contains(x));
                assert(init.contains(x));
                let j = choose|j: int| 0 <= j < init.len() && init[j] == x;
                assert(ks[j] == x);
                assert(ks[j] < ks[ks.len() - 1]);
            }
        }
    } else {
        assert(ks.filter(p) =~= ks);
    }
}

} // verus!
