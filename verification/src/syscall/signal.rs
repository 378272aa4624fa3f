//! Signal system calls: masks, pending sets, handlers, the alternate stack,
//! sending signals and waiting for them.

use vstd::prelude::*;
use crate::errno::{EAGAIN, EINTR, EINVAL, ENOMEM, ESRCH};
use crate::kernel::{Kernel, cur, current_task, has_current, home_cpu, sleep_task};
use crate::process::send_signal;
use crate::scheduler::sleep_state;
use crate::task::{Task, TaskState, TaskUpdate, NSIG, sig_bit, valid_signal, signal_flag};
use crate::task_queue::other_than;

verus! {

/// The size of a signal set in bytes.
pub const SIGSET_SIZE: u32 = 8;
pub const SIG_BLOCK: i32 = 0;
pub const SIG_UNBLOCK: i32 = 1;
pub const SIG_SETMASK: i32 = 2;

/// `rt_sigprocmask` for the calling task: the old mask, for the caller's
/// `oset`, and the result. The set size must be 8 bytes. With a new set
/// (`set`), `how` adds it to the mask, removes it, or replaces the mask; any
/// other `how` is `EINVAL` (the old mask is still reported).
pub fn rt_sigprocmask(k: &mut Kernel, how: i32, set: Option<u64>, sigsetsize: u32) -> (r: (i32, u64))
    requires
        old(k).wf(),
        has_current(*old(k)),
    ensures
        final(k).wf(),
        final(k).same_but_tasks(*old(k)),
        ({
            let me = cur(*old(k));
            let t = old(k).tasks()@[me];
            if sigsetsize != SIGSET_SIZE {
                r.0 == -EINVAL && *final(k) == *old(k)
            } else {
                &&& r.1 == t.blocked
                &&& match set {
                    None => r.0 == 0 && final(k).tasks()@ == old(k).tasks()@,
                    Some(s) => if how == SIG_BLOCK {
                        r.0 == 0 && final(k).tasks()@ == old(k).tasks()@.insert(me, t.updated(TaskUpdate::Blocked(t.blocked | s)))
                    } else if how == SIG_UNBLOCK {
                        r.0 == 0 && final(k).tasks()@ == old(k).tasks()@.insert(me, t.updated(TaskUpdate::Blocked(t.blocked & !s)))
                    } else if how == SIG_SETMASK {
                        r.0 == 0 && final(k).tasks()@ == old(k).tasks()@.insert(me, t.updated(TaskUpdate::Blocked(s)))
                    } else {
                        r.0 == -EINVAL && final(k).tasks()@ == old(k).tasks()@
                    },
                }
            }
        }),
{
    if sigsetsize != SIGSET_SIZE {
        return (-EINVAL, 0);
    }
    let me = current_task(k);
    let blocked = k.task_manager().get_task(me).unwrap().blocked;
    match set {
        None => (0, blocked),
        Some(s) => {
            if how == SIG_BLOCK {
                k.update_task(me, TaskUpdate::Blocked(blocked | s));
            } else if how == SIG_UNBLOCK {
                k.update_task(me, TaskUpdate::Blocked(blocked & !s));
            } else if how == SIG_SETMASK {
                k.update_task(me, TaskUpdate::Blocked(s));
            } else {
                return (-EINVAL, blocked);
            }
            (0, blocked)
        },
    }
}

/// `rt_sigpending`: the signals pending for the calling thread and for its
/// thread group.
pub fn rt_sigpending(k: &Kernel, sigsetsize: u32) -> (r: Result<u64, i32>)
    requires
        k.wf(),
        has_current(*k),
    ensures
        sigsetsize != SIGSET_SIZE ==> r == Err::<u64, i32>(EINVAL),
        sigsetsize == SIGSET_SIZE ==> r == Ok::<u64, i32>(k.tasks()@[cur(*k)].pending | k.tasks()@[cur(*k)].shared_pending),
{
    if sigsetsize != SIGSET_SIZE {
        return Err(EINVAL);
    }
    let t = k.task_manager().get_task(current_task(k)).unwrap();
    Ok(t.pending | t.shared_pending)
}

pub const SA_NOCLDSTOP: u64 = 0x1;
pub const SA_NOCLDWAIT: u64 = 0x2;
pub const SA_SIGINFO: u64 = 0x4;
pub const SA_RESTORER: u64 = 0x0400_0000;
pub const SA_ONSTACK: u64 = 0x0800_0000;
pub const SA_RESTART: u64 = 0x1000_0000;
pub const SA_NODEFER: u64 = 0x4000_0000;
pub const SA_RESETHAND: u64 = 0x8000_0000;
/// Every handler flag the kernel knows; the others are dropped.
pub const SA_KNOWN: u64 = 0xdc00_0007;

/// A signal's disposition: the handler address (0: default, 1: ignore), its
/// flags, the restorer and the signals blocked while it runs.
#[derive(Clone, Copy, Debug, PartialEq, Eq, Structural)]
pub struct SigAction {
    pub handler: u64,
    pub flags: u64,
    pub restorer: u64,
    pub mask: u64,
}

/// The dispositions of a thread group, one per signal number 0 to 64.
pub struct SigHandlers {
    pub actions: Vec<SigAction>,
}

impl SigHandlers {
    pub open spec fn wf(&self) -> bool {
        self.actions@.len() == NSIG + 1
    }

    /// Every signal with its default disposition.
    pub fn new() -> (h: SigHandlers)
        ensures
            h.wf(),
            forall|i: int| 0 <= i <= NSIG ==> #[trigger] h.actions@[i] == (SigAction { handler: 0, flags: 0, restorer: 0, mask: 0 }),
    {
        let mut actions: Vec<SigAction> = Vec::new();
        let mut i: usize = 0;
        while i <= NSIG
            invariant
                i <= NSIG + 1,
                actions@.len() == i,
                forall|j: int| 0 <= j < i ==> #[trigger] actions@[j] == (SigAction { handler: 0, flags: 0, restorer: 0, mask: 0 }),
            decreases NSIG + 1 - i,
        {
            actions.push(SigAction { handler: 0, flags: 0, restorer: 0, mask: 0 });
            i = i + 1;
        }
        SigHandlers { actions }
    }
}

/// `rt_sigaction` on the caller's dispositions: the old action of `signum`,
/// for `oldact`, and the result. The signal must be 1 to 64; a new action
/// keeps only the known flags.
pub fn rt_sigaction(h: &mut SigHandlers, signum: i32, act: Option<SigAction>) -> (r: (i32, Option<SigAction>))
    requires
        old(h).wf(),
    ensures
        final(h).wf(),
        !(1 <= signum <= NSIG) ==> r.0 == -EINVAL && r.1 is None && final(h).actions@ == old(h).actions@,
        1 <= signum <= NSIG ==> r.0 == 0 && r.1 == Some(old(h).actions@[signum as int]) && match act {
            None => final(h).actions@ == old(h).actions@,
            Some(a) => final(h).actions@ == old(h).actions@.update(signum as int, SigAction { flags: a.flags & SA_KNOWN, ..a }),
        },
{
    if signum <= 0 || signum as usize > NSIG {
        return (-EINVAL, None);
    }
    let old_action = h.actions[signum as usize];
    match act {
        None => {},
        Some(a) => {
            h.actions.set(signum as usize, SigAction { flags: a.flags & SA_KNOWN, ..a });
        },
    }
    (0, Some(old_action))
}

/// The alternate signal stack: base, flags and size.
#[derive(Clone, Copy, Debug, PartialEq, Eq, Structural)]
pub struct StackT {
    pub ss_sp: u64,
    pub ss_flags: i32,
    pub ss_size: u64,
}

pub const MINSIGSTKSZ: u64 = 2048;
pub const SS_ONSTACK: i32 = 1;
pub const SS_DISABLE: i32 = 2;
pub const SS_AUTODISARM: i32 = 0x8000_0000u32 as i32;

/// `sigaltstack`: the old stack, for `uoss`, and the result. A new stack
/// smaller than `MINSIGSTKSZ` is `ENOMEM`; a flag word that has all three of
/// `SS_AUTODISARM`, `SS_DISABLE` and `SS_ONSTACK` in common is `EINVAL`.
pub fn signal_stack(cur_stack: &mut StackT, uss: Option<StackT>) -> (r: (i32, StackT))
    ensures
        r.1 == *old(cur_stack),
        match uss {
            None => r.0 == 0 && *final(cur_stack) == *old(cur_stack),
            Some(s) => if s.ss_size < MINSIGSTKSZ {
                r.0 == -ENOMEM && *final(cur_stack) == *old(cur_stack)
            } else if s.ss_flags & SS_AUTODISARM & SS_DISABLE & SS_ONSTACK != 0 {
                r.0 == -EINVAL && *final(cur_stack) == *old(cur_stack)
            } else {
                r.0 == 0 && *final(cur_stack) == s
            },
        },
{
    let old_stack = *cur_stack;
    match uss {
        None => (0, old_stack),
        Some(s) => {
            if s.ss_size < MINSIGSTKSZ {
                return (-ENOMEM, old_stack);
            }
            if s.ss_flags & SS_AUTODISARM & SS_DISABLE & SS_ONSTACK != 0 {
                return (-EINVAL, old_stack);
            }
            *cur_stack = s;
            (0, old_stack)
        },
    }
}

/// Sends `sig` to every task of `targets` in order.
fn send_to_all(k: &mut Kernel, targets: &Vec<u32>, sig: usize)
    requires
        old(k).wf(),
        targets@.no_duplicates(),
    ensures
        final(k).wf(),
        final(k).tasks()@.dom() == old(k).tasks()@.dom(),
        forall|t: u32| old(k).tasks()@.contains_key(t) && !targets@.contains(t) ==> #[trigger] final(k).tasks()@[t] == old(k).tasks()@[t],
        forall|t: u32| #[trigger] old(k).tasks()@.contains_key(t) && targets@.contains(t) ==>
            final(k).tasks()@[t].pending == if valid_signal(sig) { old(k).tasks()@[t].pending | sig_bit(sig) } else { old(k).tasks()@[t].pending },
{
    let mut i: usize = 0;
    while i < targets.len()
        invariant
            k.wf(),
            i <= targets@.len(),
            targets@.no_duplicates(),
            k.tasks()@.dom() == old(k).tasks()@.dom(),
            forall|t: u32| old(k).tasks()@.contains_key(t) && !targets@.take(i as int).contains(t) ==> #[trigger] k.tasks()@[t] == old(k).tasks()@[t],
            forall|t: u32| #[trigger] old(k).tasks()@.contains_key(t) && targets@.take(i as int).contains(t) ==>
                k.tasks()@[t].pending == if valid_signal(sig) { old(k).tasks()@[t].pending | sig_bit(sig) } else { old(k).tasks()@[t].pending },
        decreases targets@.len() - i,
    {
        let t = targets[i];
        let ghost k0 = *k;
        let ok = send_signal(k, t, sig);
        proof {
            assert(targets@.take(i + 1) =~= targets@.take(i as int).push(t));
            assert(!targets@.take(i as int).contains(t)) by {
                if targets@.take(i as int).contains(t) {
                    let j = choose|j: int| 0 <= j < i && targets@.take(i as int)[j] == t;
                    assert(targets@[j] == targets@[i as int]);
                }
            }
            if !ok {
                assert(k.tasks()@ == k0.tasks()@);
            }
            assert(targets@.take(i + 1)[i as int] == t);
            assert forall|x: u32| old(k).tasks()@.contains_key(x) && !targets@.take(i + 1).contains(x) implies #[trigger] k.tasks()@[x] == old(k).tasks()@[x] by {
                assert(x != t);
                assert(k.tasks()@.get(x) == k0.tasks()@.get(x));
            }
            assert forall|x: u32| #[trigger] old(k).tasks()@.contains_key(x) && targets@.take(i + 1).contains(x) implies
                k.tasks()@[x].pending == if valid_signal(sig) { old(k).tasks()@[x].pending | sig_bit(sig) } else { old(k).tasks()@[x].pending } by {
                if x != t {
                    assert(k.tasks()@.get(x) == k0.tasks()@.get(x));
                    assert(targets@.take(i as int).contains(x));
                } else {
                    assert(k0.tasks()@[x] == old(k).tasks()@[x]);
                }
            }
        }
        i = i + 1;
    }
    proof {
        assert(targets@.take(targets@.len() as int) =~= targets@);
    }
}

/// The processes `kill(pid, ...)` sends to when `pid` is not positive: for
/// 0 the caller's process group, for -1 every process, below -1 process
/// group `-pid`; never process 1.
pub open spec fn kill_group_target(k: Kernel, cur_pgid: u32, pid: i32, t: u32) -> bool {
    &&& k.tasks()@.contains_key(t)
    &&& k.tasks()@[t].pid == t
    &&& t != 1
    &&& if pid == 0 {
            k.tasks()@[t].pgid == cur_pgid
        } else if pid == -1 {
            true
        } else {
            k.tasks()@[t].pgid == (-(pid as int)) as u32
        }
}

/// The pending signal sets after `sig` went to the tasks `targets` picks.
pub open spec fn signalled(old: Kernel, new: Kernel, sig: usize, targets: spec_fn(u32) -> bool) -> bool {
    &&& new.tasks()@.dom() == old.tasks()@.dom()
    &&& forall|t: u32| old.tasks()@.contains_key(t) && !targets(t) ==> #[trigger] new.tasks()@[t] == old.tasks()@[t]
    &&& forall|t: u32| #[trigger] old.tasks()@.contains_key(t) && targets(t) ==>
            new.tasks()@[t].pending == if valid_signal(sig) { old.tasks()@[t].pending | sig_bit(sig) } else { old.tasks()@[t].pending }
}

/// `kill`. The signal must be 0 to 63 (0 only checks). A positive `pid`
/// names one process (`ESRCH` when absent, `EINVAL` for a thread that is
/// not a process); otherwise the signal goes to a set of processes (see
/// `kill_group_target`), and an empty set is `ESRCH`. Each target gets the
/// signal pending and is woken from an interruptible sleep.
pub fn kill(k: &mut Kernel, pid: i32, sig: i32) -> (r: i32)
    requires
        old(k).wf(),
        has_current(*old(k)),
    ensures
        final(k).wf(),
        !(0 <= sig < NSIG) ==> r == -EINVAL && *final(k) == *old(k),
        0 <= sig < NSIG && pid > 0 ==> if !old(k).tasks()@.contains_key(pid as u32) {
            r == -ESRCH && *final(k) == *old(k)
        } else if old(k).tasks()@[pid as u32].pid != pid as u32 {
            r == -EINVAL && *final(k) == *old(k)
        } else {
            r == 0 && signalled(*old(k), *final(k), sig as usize, |t: u32| t == pid as u32)
        },
        0 <= sig < NSIG && pid <= 0 ==> ({
            let g = old(k).tasks()@[cur(*old(k))].pgid;
            if forall|t: u32| !kill_group_target(*old(k), g, pid, t) {
                r == -ESRCH && *final(k) == *old(k)
            } else {
                r == 0 && signalled(*old(k), *final(k), sig as usize, |t: u32| kill_group_target(*old(k), g, pid, t))
            }
        }),
{
    if sig < 0 || sig as usize >= NSIG {
        return -EINVAL;
    }
    let ghost k0 = *k;
    if pid > 0 {
        let p = pid as u32;
        let is_proc = match k.task_manager().get_task(p) {
            Some(t) => t.pid == p,
            None => return -ESRCH,
        };
        if !is_proc {
            return -EINVAL;
        }
        let targets: Vec<u32> = vec![p];
        send_to_all(k, &targets, sig as usize);
        proof {
            assert forall|t: u32| k0.tasks()@.contains_key(t) && !(t == p) implies #[trigger] k.tasks()@[t] == k0.tasks()@[t] by {
                assert(!targets@.contains(t)) by { if targets@.contains(t) { assert(targets@[0] == t); } }
            }
            assert forall|t: u32| #[trigger] k0.tasks()@.contains_key(t) && t == p implies
                k.tasks()@[t].pending == if valid_signal(sig as usize) { k0.tasks()@[t].pending | sig_bit(sig as usize) } else { k0.tasks()@[t].pending } by {
                assert(targets@[0] == t);
            }
        }
        return 0;
    }
    let me = current_task(k);
    let g = k.task_manager().get_task(me).unwrap().pgid;
    proof { k.lemma_tasks_wf(); }
    let procs = k.task_manager().list_process_pids_snapshot();
    let mut targets: Vec<u32> = Vec::new();
    let mut i: usize = 0;
    while i < procs.len()
        invariant
            *k == k0,
            k.wf(),
            i <= procs@.len(),
            forall|p: u32| procs@.contains(p) <==> (k.tasks()@.contains_key(p) && k.tasks()@[p].pid == p),
            forall|a: int, b: int| 0 <= a < b < procs@.len() ==> procs@[a] < procs@[b],
            forall|t: u32| targets@.contains(t) <==> (procs@.take(i as int).contains(t) && kill_group_target(k0, g, pid, t)),
            forall|a: int, b: int| 0 <= a < b < targets@.len() ==> targets@[a] < targets@[b],
            forall|a: int| 0 <= a < targets@.len() ==> exists|b: int| 0 <= b < i && procs@[b] == #[trigger] targets@[a],
        decreases procs@.len() - i,
    {
        let p = procs[i];
        proof {
            assert(procs@.contains(p));
            assert(procs@.take(i + 1) =~= procs@.take(i as int).push(p));
        }
        let t = k.task_manager().get_task(p).unwrap();
        let grp_ok = if pid == 0 {
            t.pgid == g
        } else if pid == -1 {
            true
        } else {
            #[verifier::truncate]
            let gg = (0i64 - pid as i64) as u32;
            t.pgid == gg
        };
        proof {
            assert(kill_group_target(k0, g, pid, p) == (p != 1 && grp_ok));
        }
        let ghost before = targets@;
        let ghost taken0 = procs@.take(i as int);
        if p != 1 && grp_ok {
            proof {
                assert forall|a: int| 0 <= a < targets@.len() implies targets@[a] < p by {
                    let b = choose|b: int| 0 <= b < i && procs@[b] == targets@[a];
                }
            }
            targets.push(p);
        }
        i = i + 1;
        proof {
            assert(procs@.take(i as int) =~= taken0.push(p));
            assert forall|x: u32| targets@.contains(x) <==> (procs@.take(i as int).contains(x) && kill_group_target(k0, g, pid, x)) by {
                lemma_push_contains(taken0, p, x);
                if p != 1 && grp_ok {
                    assert(targets@ =~= before.push(p));
                    lemma_push_contains(before, p, x);
                } else {
                    assert(targets@ =~= before);
                }
            }
            assert forall|a: int| 0 <= a < targets@.len() implies exists|b: int| 0 <= b < i && procs@[b] == #[trigger] targets@[a] by {
                if a == targets@.len() - 1 && p != 1 && grp_ok {
                    assert(procs@[i - 1] == targets@[a]);
                } else {
                    let b = choose|b: int| 0 <= b < i - 1 && procs@[b] == targets@[a];
                    assert(procs@[b] == targets@[a]);
                }
            }
        }
    }
    proof {
        assert(procs@.take(procs@.len() as int) =~= procs@);
    }
    if targets.len() == 0 {
        proof {
            assert forall|t: u32| !kill_group_target(k0, g, pid, t) by {
                if kill_group_target(k0, g, pid, t) {
                    assert(procs@.contains(t));
                    assert(targets@.contains(t));
                }
            }
        }
        return -ESRCH;
    }
    proof {
        assert(targets@.contains(targets@[0]));
        assert(kill_group_target(k0, g, pid, targets@[0]));
        assert(targets@.no_duplicates()) by {
            assert forall|a: int, b: int| 0 <= a < targets@.len() && 0 <= b < targets@.len() && a != b implies targets@[a] != targets@[b] by {
                if a < b { assert(targets@[a] < targets@[b]); } else { assert(targets@[b] < targets@[a]); }
            }
        }
    }
    send_to_all(k, &targets, sig as usize);
    0
}

/// `tkill`: `sig` (0 to 63) to thread `tid`, which must belong to the
/// caller's process.
pub fn tkill(k: &mut Kernel, tid: i32, sig: i32) -> (r: i32)
    requires
        old(k).wf(),
        has_current(*old(k)),
    ensures
        final(k).wf(),
        !(0 <= sig < NSIG) ==> r == -EINVAL && *final(k) == *old(k),
        0 <= sig < NSIG ==> if !old(k).tasks()@.contains_key(tid as u32) {
            r == -ESRCH && *final(k) == *old(k)
        } else if old(k).tasks()@[tid as u32].pid != old(k).tasks()@[cur(*old(k))].pid {
            r == -EINVAL && *final(k) == *old(k)
        } else {
            r == 0 && signalled(*old(k), *final(k), sig as usize, |t: u32| t == tid as u32)
        },
{
    if sig < 0 || sig as usize >= NSIG {
        return -EINVAL;
    }
    let me = current_task(k);
    let my_pid = k.task_manager().get_task(me).unwrap().pid;
    #[verifier::truncate]
    let t = tid as u32;
    tgkill_checked(k, my_pid, t, sig)
}

/// Sends `sig` to `tid` if it belongs to process `pid`.
fn tgkill_checked(k: &mut Kernel, pid: u32, tid: u32, sig: i32) -> (r: i32)
    requires
        old(k).wf(),
        0 <= sig < NSIG,
    ensures
        final(k).wf(),
        if !old(k).tasks()@.contains_key(tid) {
            r == -ESRCH && *final(k) == *old(k)
        } else if old(k).tasks()@[tid].pid != pid {
            r == -EINVAL && *final(k) == *old(k)
        } else {
            r == 0 && signalled(*old(k), *final(k), sig as usize, |t: u32| t == tid)
        },
{
    let tp = match k.task_manager().get_task(tid) {
        Some(t) => t.pid,
        None => return -ESRCH,
    };
    if tp != pid {
        return -EINVAL;
    }
    let ghost k0 = *k;
    let targets: Vec<u32> = vec![tid];
    send_to_all(k, &targets, sig as usize);
    proof {
        assert forall|t: u32| k0.tasks()@.contains_key(t) && !(t == tid) implies #[trigger] k.tasks()@[t] == k0.tasks()@[t] by {
            assert(!targets@.contains(t)) by { if targets@.contains(t) { assert(targets@[0] == t); } }
        }
        assert forall|t: u32| #[trigger] k0.tasks()@.contains_key(t) && t == tid implies
            k.tasks()@[t].pending == if valid_signal(sig as usize) { k0.tasks()@[t].pending | sig_bit(sig as usize) } else { k0.tasks()@[t].pending } by {
            assert(targets@[0] == t);
        }
    }
    0
}

/// `tgkill`: `sig` (0 to 63) to thread `tid` of process `tgid`.
pub fn tgkill(k: &mut Kernel, tgid: i32, tid: i32, sig: i32) -> (r: i32)
    requires
        old(k).wf(),
    ensures
        final(k).wf(),
        !(0 <= sig < NSIG) ==> r == -EINVAL && *final(k) == *old(k),
        0 <= sig < NSIG ==> if !old(k).tasks()@.contains_key(tid as u32) {
            r == -ESRCH && *final(k) == *old(k)
        } else if old(k).tasks()@[tid as u32].pid != tgid as u32 {
            r == -EINVAL && *final(k) == *old(k)
        } else {
            r == 0 && signalled(*old(k), *final(k), sig as usize, |t: u32| t == tid as u32)
        },
{
    if sig < 0 || sig as usize >= NSIG {
        return -EINVAL;
    }
    #[verifier::truncate]
    let t = tid as u32;
    #[verifier::truncate]
    let g = tgid as u32;
    tgkill_checked(k, g, t, sig)
}

proof fn lemma_push_contains(s: Seq<u32>, v: u32, x: u32)
    ensures
        s.push(v).contains(x) <==> (s.contains(x) || x == v),
{
    if s.contains(x) {
        let j = choose|j: int| 0 <= j < s.len() && s[j] == x;
        assert(s.push(v)[j] == x);
    }
    if x == v {
        assert(s.push(v)[s.len() as int] == x);
    }
    if s.push(v).contains(x) {
        let j = choose|j: int| 0 <= j < s.push(v).len() && s.push(v)[j] == x;
        if j < s.len() {
            assert(s[j] == x);
        }
    }
}

/// The lowest signal in `m`, if any.
pub open spec fn first_signal(m: u64, n: usize) -> bool {
    &&& 1 <= n <= NSIG
    &&& m & sig_bit(n) != 0
    &&& forall|j: usize| 1 <= j < n ==> m & #[trigger] sig_bit(j) == 0
}

pub open spec fn no_signal(m: u64) -> bool {
    forall|j: usize| 1 <= j <= NSIG ==> m & #[trigger] sig_bit(j) == 0
}

pub fn lowest_signal(m: u64) -> (r: Option<usize>)
    ensures
        r matches Some(n) ==> first_signal(m, n),
        r is None ==> no_signal(m),
{
    let mut n: usize = 1;
    while n <= NSIG
        invariant
            1 <= n <= NSIG + 1,
            forall|j: usize| 1 <= j < n ==> m & #[trigger] sig_bit(j) == 0,
        decreases NSIG + 1 - n,
    {
        let b = signal_flag(n).unwrap();
        if m & b != 0 {
            return Some(n);
        }
        n = n + 1;
    }
    None
}

/// The signal `rt_sigtimedwait` takes: the lowest of `set` pending for the
/// thread, else the lowest pending for the thread group.
pub open spec fn waited_signal(t: Task, set: u64, n: usize) -> bool {
    ||| first_signal(t.pending & set, n)
    ||| no_signal(t.pending & set) && first_signal(t.shared_pending & set, n)
}

pub open spec fn none_waited(t: Task, set: u64) -> bool {
    no_signal(t.pending & set) && no_signal(t.shared_pending & set)
}

/// What one look of `rt_sigtimedwait` decided.
#[derive(Clone, Copy, Debug, PartialEq, Eq, Structural)]
pub enum SigWait {
    /// This signal was taken.
    Got(usize),
    /// The call returns this error.
    Fail(i32),
    /// The caller sleeps interruptibly and looks again when woken.
    Slept,
}

/// A timeout in seconds and nanoseconds.
pub open spec fn timeout_valid(sec: i64, nsec: i64) -> bool {
    sec >= 0 && 0 <= nsec < 1_000_000_000
}

/// One look of `rt_sigtimedwait` (`wait_for_signal`) for the calling task.
/// A timeout must be valid. When one of `set` is pending (the thread's own
/// first, the lowest number first), it is taken: its bit is cleared from
/// the thread's pending set. Otherwise a zero timeout gives `EAGAIN` at
/// once, a timeout that `expired` gives `EAGAIN`, and else the caller
/// sleeps (with a timer for a timeout).
pub fn wait_for_signal_step(k: &mut Kernel, set: u64, timeout: Option<(i64, i64)>, expired: bool) -> (r: SigWait)
    requires
        old(k).wf(),
        has_current(*old(k)),
    ensures
        final(k).wf(),
        ({
            let me = cur(*old(k));
            let t = old(k).tasks()@[me];
            if timeout matches Some((s, ns)) && !timeout_valid(s, ns) {
                r == SigWait::Fail(EINVAL) && *final(k) == *old(k)
            } else if !none_waited(t, set) {
                &&& r matches SigWait::Got(n) && waited_signal(t, set, n)
                    && final(k).tasks()@ == old(k).tasks()@.insert(me, t.updated(TaskUpdate::Pending(t.pending & !sig_bit(n))))
                &&& final(k).same_but_tasks(*old(k))
            } else if timeout == Some((0i64, 0i64)) || (timeout is Some && expired) {
                r == SigWait::Fail(EAGAIN) && *final(k) == *old(k)
            } else {
                &&& r == SigWait::Slept
                &&& final(k).tasks()@ == old(k).tasks()@.insert(me, t.with_state(sleep_state(true)))
                &&& final(k).queue(home_cpu(*old(k), me)) == old(k).queue(home_cpu(*old(k), me)).filter(other_than(me))
                &&& final(k).queues_but(*old(k), home_cpu(*old(k), me))
            }
        }),
{
    match timeout {
        Some((s, ns)) => {
            if s < 0 || ns < 0 || ns >= 1_000_000_000 {
                return SigWait::Fail(EINVAL);
            }
        },
        None => {},
    }
    let me = current_task(k);
    let t = k.task_manager().get_task(me).unwrap();
    let (pending, shared) = (t.pending, t.shared_pending);
    let found = match lowest_signal(pending & set) {
        Some(n) => Some(n),
        None => lowest_signal(shared & set),
    };
    match found {
        Some(n) => {
            let b = signal_flag(n).unwrap();
            k.update_task(me, TaskUpdate::Pending(pending & !b));
            SigWait::Got(n)
        },
        None => {
            let zero = match timeout {
                Some((s, ns)) => s == 0 && ns == 0,
                None => false,
            };
            if zero || (timeout.is_some() && expired) {
                return SigWait::Fail(EAGAIN);
            }
            sleep_task(k, me, true);
            SigWait::Slept
        },
    }
}

/// `rt_sigsuspend`, first part: the set size must be 8 bytes; the mask
/// becomes `new_set` and the caller sleeps interruptibly. Returns the old
/// mask, which `rt_sigsuspend_finish` puts back.
pub fn rt_sigsuspend(k: &mut Kernel, new_set: u64, sigsetsize: u32) -> (r: Result<u64, i32>)
    requires
        old(k).wf(),
        has_current(*old(k)),
    ensures
        final(k).wf(),
        sigsetsize != SIGSET_SIZE ==> r == Err::<u64, i32>(EINVAL) && *final(k) == *old(k),
        sigsetsize == SIGSET_SIZE ==> ({
            let me = cur(*old(k));
            let t = old(k).tasks()@[me];
            &&& r == Ok::<u64, i32>(t.blocked)
            &&& final(k).tasks()@ == old(k).tasks()@.insert(me, t.updated(TaskUpdate::Blocked(new_set)).with_state(sleep_state(true)))
            &&& final(k).queue(home_cpu(*old(k), me)) == old(k).queue(home_cpu(*old(k), me)).filter(other_than(me))
            &&& final(k).queues_but(*old(k), home_cpu(*old(k), me))
        }),
{
    if sigsetsize != SIGSET_SIZE {
        return Err(EINVAL);
    }
    let me = current_task(k);
    let old_set = k.task_manager().get_task(me).unwrap().blocked;
    let ghost k0 = *k;
    k.update_task(me, TaskUpdate::Blocked(new_set));
    let ghost k1 = *k;
    sleep_task(k, me, true);
    proof {
        k0.lemma_home_cpu_in_range(me);
        assert(home_cpu(k1, me) == home_cpu(k0, me));
        assert(k1.queue(home_cpu(k0, me)) == k0.queue(home_cpu(k0, me)));
        assert forall|d: int| 0 <= d < k.num_cpu() && d != home_cpu(k0, me) implies #[trigger] k.queue(d) == k0.queue(d) by {
            assert(k1.queue(d) == k0.queue(d));
        }
    }
    Ok(old_set)
}

/// `rt_sigsuspend`, after the caller was woken: the old mask is back and
/// the call returns `EINTR`.
pub fn rt_sigsuspend_finish(k: &mut Kernel, old_set: u64) -> (r: i32)
    requires
        old(k).wf(),
        has_current(*old(k)),
    ensures
        final(k).wf(),
        final(k).same_but_tasks(*old(k)),
        r == -EINTR,
        final(k).tasks()@ == old(k).tasks()@.insert(cur(*old(k)),
            old(k).tasks()@[cur(*old(k))].updated(TaskUpdate::Blocked(old_set))),
{
    let me = current_task(k);
    k.update_task(me, TaskUpdate::Blocked(old_set));
    -EINTR
}

} // verus!
