//! Process-level task operations: signals, parent notification and the
//! exit of a whole thread group.

use vstd::prelude::*;
use crate::kernel::{Kernel, wake_up_task, wake_up_post, exit_task, state_change_post, wakeable};
use crate::task::{Task, TaskState, TaskUpdate, SIGCHLD, valid_signal, sig_bit};

verus! {

/// The exit code given to the other threads of an exiting process.
pub const THREAD_GROUP_EXIT_CODE: i32 = 0x114514;
/// The pid of init, which adopts orphans.
pub const INIT_PID: u32 = 1;

/// What signal delivery and wake-ups keep: the set of tasks, their ids,
/// parents, children and exit codes, and that zombies stay zombies.
pub open spec fn signal_frame(old: Kernel, new: Kernel) -> bool {
    &&& new.tasks()@.dom() == old.tasks()@.dom()
    &&& new.num_cpu() == old.num_cpu()
    &&& new.cur_cpu() == old.cur_cpu()
    &&& forall|c: int| 0 <= c < new.num_cpu() ==> #[trigger] new.cpu(c) == old.cpu(c)
    &&& new.tasks().next_tid() == old.tasks().next_tid()
    &&& forall|t: u32| #[trigger] old.tasks()@.contains_key(t) ==> {
        &&& new.tasks()@[t].pid == old.tasks()@[t].pid
        &&& new.tasks()@[t].tid == old.tasks()@[t].tid
        &&& new.tasks()@[t].ppid == old.tasks()@[t].ppid
        &&& new.tasks()@[t].children == old.tasks()@[t].children
        &&& new.tasks()@[t].exit_code == old.tasks()@[t].exit_code
        &&& (old.tasks()@[t].state == TaskState::Zombie ==> new.tasks()@[t].state == TaskState::Zombie)
        &&& (new.tasks()@[t].pending & old.tasks()@[t].pending) == old.tasks()@[t].pending
    }
}

proof fn lemma_signal_frame_trans(k0: Kernel, k1: Kernel, k2: Kernel)
    requires
        signal_frame(k0, k1),
        signal_frame(k1, k2),
    ensures
        signal_frame(k0, k2),
{
    assert forall|t: u32| #[trigger] k0.tasks()@.contains_key(t) implies
        (k2.tasks()@[t].pending & k0.tasks()@[t].pending) == k0.tasks()@[t].pending by {
        assert(k1.tasks()@.contains_key(t));
        let a = k0.tasks()@[t].pending;
        let b = k1.tasks()@[t].pending;
        let c = k2.tasks()@[t].pending;
        assert((b & a) == a && (c & b) == b ==> (c & a) == a) by (bit_vector);
    }
    assert forall|c: int| 0 <= c < k2.num_cpu() implies #[trigger] k2.cpu(c) == k0.cpu(c) by {
        assert(k1.cpu(c) == k0.cpu(c));
    }
}

/// A wake-up keeps the signal frame.
pub proof fn lemma_wake_keeps_frame(k1: Kernel, k2: Kernel, tid: u32, ipi: Option<usize>)
    requires
        k1.wf(),
        k1.tasks()@.contains_key(tid),
        wake_up_post(k1, k2, tid, ipi),
    ensures
        signal_frame(k1, k2),
{
    assert(k2.tasks()@.dom() =~= k1.tasks()@.dom());
    assert forall|t: u32| #[trigger] k1.tasks()@.contains_key(t) implies
        (k2.tasks()@[t].pending & k1.tasks()@[t].pending) == k1.tasks()@[t].pending by {
        let b = k1.tasks()@[t].pending;
        assert((b & b) == b) by (bit_vector);
    }
}

/// Marks `signal` pending for `tid` and wakes it when it sleeps
/// interruptibly; `false`, with nothing changed, for an invalid signal or an
/// unknown task.
pub fn send_signal(k: &mut Kernel, tid: u32, signal: usize) -> (r: bool)
    requires
        old(k).wf(),
    ensures
        final(k).wf(),
        r == (valid_signal(signal) && old(k).tasks()@.contains_key(tid)),
        !r ==> final(k).tasks()@ == old(k).tasks()@ && final(k).same_but_tasks(*old(k)),
        r ==> final(k).tasks()@[tid].pending == old(k).tasks()@[tid].pending | sig_bit(signal),
        r ==> (old(k).tasks()@[tid].state == TaskState::Interruptible
            <==> final(k).tasks()@[tid].state == TaskState::Running && old(k).tasks()@[tid].state != TaskState::Running),
        r ==> (old(k).tasks()@[tid].state != TaskState::Interruptible ==> final(k).tasks()@[tid].state == old(k).tasks()@[tid].state),
        r ==> signal_frame(*old(k), *final(k)),
        r ==> final(k).tasks()@[tid].wait_child == old(k).tasks()@[tid].wait_child,
        forall|t: u32| t != tid ==> #[trigger] final(k).tasks()@.get(t) == old(k).tasks()@.get(t),
{
    let ok = k.mark_signal(tid, signal);
    if !ok {
        return false;
    }
    let ghost k1 = *k;
    proof {
        let a = old(k).tasks()@[tid].pending;
        assert(((a | sig_bit(signal)) & a) == a) by (bit_vector);
        assert forall|c: int| 0 <= c < k1.num_cpu() implies #[trigger] k1.cpu(c) == old(k).cpu(c) by {}
        assert(k1.tasks()@.dom() =~= old(k).tasks()@.dom());
        assert forall|t: u32| #[trigger] old(k).tasks()@.contains_key(t) implies
            (k1.tasks()@[t].pending & old(k).tasks()@[t].pending) == old(k).tasks()@[t].pending by {
            let b = old(k).tasks()@[t].pending;
            assert((b & b) == b) by (bit_vector);
        }
        assert(signal_frame(*old(k), k1));
    }
    let st = k.task_manager().get_task(tid).unwrap().state;
    if st == TaskState::Interruptible {
        let ipi = wake_up_task(k, tid);
        proof {
            lemma_wake_keeps_frame(k1, *k, tid, ipi);
            lemma_signal_frame_trans(*old(k), k1, *k);
        }
    }
    true
}

/// Taking a waiter off a `wait_child` queue keeps the signal frame.
proof fn lemma_pop_keeps_frame(k1: Kernel, k2: Kernel, tid: u32)
    requires
        k1.tasks()@.contains_key(tid),
        k2.same_but_tasks(k1),
        k2.tasks().next_tid() == k1.tasks().next_tid(),
        k2.tasks()@.dom() == k1.tasks()@.dom(),
        forall|t: u32| t != tid ==> k2.tasks()@.get(t) == k1.tasks()@.get(t),
        k2.tasks()@[tid].with_wait_child_of(k1.tasks()@[tid]) == k1.tasks()@[tid],
    ensures
        signal_frame(k1, k2),
{
    assert forall|t: u32| #[trigger] k1.tasks()@.contains_key(t) implies
        (k2.tasks()@[t].pending & k1.tasks()@[t].pending) == k1.tasks()@[t].pending by {
        let b = k1.tasks()@[t].pending;
        assert((b & b) == b) by (bit_vector);
        if t != tid {
            assert(k2.tasks()@.get(t) == k1.tasks()@.get(t));
        }
    }
    assert forall|t: u32| #[trigger] k1.tasks()@.contains_key(t) implies k2.tasks()@[t].pid == k1.tasks()@[t].pid
        && k2.tasks()@[t].tid == k1.tasks()@[t].tid && k2.tasks()@[t].ppid == k1.tasks()@[t].ppid
        && k2.tasks()@[t].children == k1.tasks()@[t].children && k2.tasks()@[t].exit_code == k1.tasks()@[t].exit_code
        && k2.tasks()@[t].state == k1.tasks()@[t].state by {
        if t != tid {
            assert(k2.tasks()@.get(t) == k1.tasks()@.get(t));
        }
    }
}

/// Wakes the first task waiting on the `wait_child` queue of `tid` and
/// takes it off the queue; returns that waiter, if there was one.
pub fn notify_child_exit(k: &mut Kernel, tid: u32) -> (r: Option<u32>)
    requires
        old(k).wf(),
        old(k).tasks()@.contains_key(tid),
    ensures
        final(k).wf(),
        signal_frame(*old(k), *final(k)),
        ({
            let q = old(k).tasks()@[tid].wait_child@;
            if q.len() == 0 {
                &&& r is None
                &&& final(k).tasks()@[tid].wait_child@ == q
            } else {
                &&& r == Some(q[0])
                &&& final(k).tasks()@[tid].wait_child@ == q.drop_first()
                &&& (old(k).tasks()@.contains_key(q[0]) && (wakeable(old(k).tasks()@[q[0]].state)
                        || old(k).tasks()@[q[0]].state == TaskState::Running)
                    ==> final(k).tasks()@[q[0]].state == TaskState::Running)
            }
        }),
{
    let w = k.pop_wait_child(tid);
    let ghost k2 = *k;
    proof {
        lemma_pop_keeps_frame(*old(k), k2, tid);
    }
    if let Some(w) = w {
        if k.task_manager().contains(w) {
            let ipi = wake_up_task(k, w);
            proof {
                lemma_wake_keeps_frame(k2, *k, w, ipi);
                lemma_signal_frame_trans(*old(k), k2, *k);
                if w != tid {
                    assert(k2.tasks()@.get(w) == old(k).tasks()@.get(w));
                } else {
                    assert(k2.tasks()@[tid].with_wait_child_of(old(k).tasks()@[tid]).state == k2.tasks()@[tid].state);
                }
            }
        }
    }
    w
}

/// Tells the parent of `tid` that it changed state: `SIGCHLD` becomes
/// pending at the parent, and the first task waiting in the parent's
/// `wait_child` queue is woken. Nothing happens without a parent.
pub fn notify_parent(k: &mut Kernel, tid: u32)
    requires
        old(k).wf(),
        old(k).tasks()@.contains_key(tid),
    ensures
        final(k).wf(),
        signal_frame(*old(k), *final(k)),
        ({
            let p = old(k).tasks()@[tid].ppid;
            old(k).tasks()@.contains_key(p) ==> final(k).tasks()@[p].pending & sig_bit(SIGCHLD) == sig_bit(SIGCHLD)
        }),
        ({
            let p = old(k).tasks()@[tid].ppid;
            let q = old(k).tasks()@[p].wait_child@;
            old(k).tasks()@.contains_key(p) ==> {
                &&& final(k).tasks()@[p].wait_child@ == if q.len() == 0 { q } else { q.drop_first() }
                &&& (q.len() > 0 && old(k).tasks()@.contains_key(q[0])
                    && (wakeable(old(k).tasks()@[q[0]].state) || old(k).tasks()@[q[0]].state == TaskState::Running))
                    ==> final(k).tasks()@[q[0]].state == TaskState::Running
            }
        }),
{
    let ppid = k.task_manager().get_task(tid).unwrap().ppid;
    if !k.task_manager().contains(ppid) {
        proof {
            assert forall|c: int| 0 <= c < k.num_cpu() implies #[trigger] k.cpu(c) == old(k).cpu(c) by {}
            assert forall|t: u32| #[trigger] old(k).tasks()@.contains_key(t) implies
                (k.tasks()@[t].pending & old(k).tasks()@[t].pending) == old(k).tasks()@[t].pending by {
                let b = old(k).tasks()@[t].pending;
                assert((b & b) == b) by (bit_vector);
            }
        }
        return;
    }
    send_signal(k, ppid, SIGCHLD);
    let ghost k1 = *k;
    proof {
        let a = old(k).tasks()@[ppid].pending;
        let b = sig_bit(SIGCHLD);
        assert((a | b) & b == b) by (bit_vector);
    }
    proof {
        let q = old(k).tasks()@[ppid].wait_child@;
        assert(k1.tasks()@[ppid].wait_child@ == q);
        if q.len() > 0 && old(k).tasks()@.contains_key(q[0]) && q[0] != ppid {
            assert(k1.tasks()@.get(q[0]) == old(k).tasks()@.get(q[0]));
        }
    }
    notify_child_exit(k, ppid);
    proof {
        lemma_signal_frame_trans(*old(k), k1, *k);
        let b = sig_bit(SIGCHLD);
        let p1 = k1.tasks()@[ppid].pending;
        let p3 = k.tasks()@[ppid].pending;
        assert(p1 & b == b);
        assert((p3 & p1) == p1);
        assert((p3 & p1) == p1 && p1 & b == b ==> p3 & b == b) by (bit_vector);
    }
}

/// The leader of the thread group of `tid`: the task whose tid is its pid.
pub fn task_group_leader(k: &Kernel, tid: u32) -> (r: Option<u32>)
    requires
        k.wf(),
        k.tasks()@.contains_key(tid),
    ensures
        ({
            let pid = k.tasks()@[tid].pid;
            if k.tasks()@.contains_key(pid) { r == Some(pid) } else { r is None }
        }),
{
    let pid = k.task_manager().get_task(tid).unwrap().pid;
    if k.task_manager().contains(pid) {
        Some(pid)
    } else {
        None
    }
}

/// Marks `sig` pending for the whole thread group whose shared pending set
/// `tid` holds.
pub fn send_signal_process(k: &mut Kernel, tid: u32, sig: usize)
    requires
        old(k).wf(),
        old(k).tasks()@.contains_key(tid),
        valid_signal(sig),
    ensures
        final(k).wf(),
        final(k).same_but_tasks(*old(k)),
        final(k).tasks()@ == old(k).tasks()@.insert(tid, old(k).tasks()@[tid].updated(
            TaskUpdate::SharedPending(old(k).tasks()@[tid].shared_pending | sig_bit(sig)))),
{
    let bit = crate::task::signal_flag(sig).unwrap();
    let sp = k.task_manager().get_task(tid).unwrap().shared_pending;
    k.update_task(tid, TaskUpdate::SharedPending(sp | bit));
}

/// Records `code` for `t` and takes it off the scheduler as a zombie.
pub fn exit_one(k: &mut Kernel, t: u32, code: i32)
    requires
        old(k).wf(),
        old(k).tasks()@.contains_key(t),
    ensures
        final(k).wf(),
        final(k).tasks()@ == old(k).tasks()@.insert(t, old(k).tasks()@[t].with_exit(code)),
        final(k).num_cpu() == old(k).num_cpu(),
        final(k).cur_cpu() == old(k).cur_cpu(),
        final(k).tasks().next_tid() == old(k).tasks().next_tid(),
        forall|c: int| 0 <= c < final(k).num_cpu() ==> #[trigger] final(k).cpu(c) == old(k).cpu(c),
{
    k.set_exit_code(t, code);
    let ghost k1 = *k;
    exit_task(k, t);
    proof {
        assert(k.tasks()@ =~= old(k).tasks()@.insert(t, old(k).tasks()@[t].with_exit(code)));
        assert forall|c: int| 0 <= c < k.num_cpu() implies #[trigger] k.cpu(c) == old(k).cpu(c) by {
            assert(k1.cpu(c) == old(k).cpu(c));
        }
    }
}

/// The predicate "is a task of `k`".
pub open spec fn known(k: Kernel) -> spec_fn(u32) -> bool {
    |t: u32| k.tasks()@.contains_key(t)
}

/// Every task record of `new` is the one of `old` with at most its parent
/// and its children changed.
pub open spec fn family_frame(old: Kernel, new: Kernel) -> bool {
    &&& new.tasks()@.dom() == old.tasks()@.dom()
    &&& new.same_but_tasks(old)
    &&& new.tasks().next_tid() == old.tasks().next_tid()
    &&& forall|t: u32| #[trigger] old.tasks()@.contains_key(t) ==> new.tasks()@[t] == old.tasks()@[t].updated(
        TaskUpdate::Ppid(new.tasks()@[t].ppid)).updated(TaskUpdate::Children(new.tasks()@[t].children))
}

/// Gives each known task in `children` to `init`: it is appended to the
/// children of `init` and its parent becomes the pid of `init`.
pub fn reparent_children(k: &mut Kernel, children: &Vec<u32>, init: u32)
    requires
        old(k).wf(),
        old(k).tasks()@.contains_key(init),
    ensures
        final(k).wf(),
        family_frame(*old(k), *final(k)),
        final(k).tasks()@[init].children@ == old(k).tasks()@[init].children@ + children@.filter(known(*old(k))),
        forall|t: u32| #[trigger] old(k).tasks()@.contains_key(t) ==> final(k).tasks()@[t].ppid == if children@.contains(t) {
            old(k).tasks()@[init].pid
        } else {
            old(k).tasks()@[t].ppid
        },
{
    let init_pid = k.task_manager().get_task(init).unwrap().pid;
    let ghost k0 = *k;
    let mut i: usize = 0;
    while i < children.len()
        invariant
            k.wf(),
            k0.wf(),
            k0.tasks()@.contains_key(init),
            init_pid == k0.tasks()@[init].pid,
            i <= children@.len(),
            family_frame(k0, *k),
            k.tasks()@[init].children@ == k0.tasks()@[init].children@ + children@.take(i as int).filter(known(k0)),
            forall|t: u32| #[trigger] k0.tasks()@.contains_key(t) ==> k.tasks()@[t].ppid == if children@.take(i as int).contains(t) {
                k0.tasks()@[init].pid
            } else {
                k0.tasks()@[t].ppid
            },
        decreases children@.len() - i,
    {
        let c = children[i];
        let ghost kb = *k;
        proof {
            assert(children@.take(i as int + 1) =~= children@.take(i as int).push(c));
            children@.take(i as int).lemma_filter_push(c, known(k0));
        }
        if k.task_manager().contains(c) {
            let mut v = k.task_manager().get_process_children(init);
            v.push(c);
            k.update_task(init, TaskUpdate::Children(v));
            let ghost kc = *k;
            k.update_task(c, TaskUpdate::Ppid(init_pid));
            proof {
                assert(k.tasks()@.dom() =~= k0.tasks()@.dom());
                assert forall|c2: int| 0 <= c2 < k.num_cpu() implies #[trigger] k.cpu(c2) == k0.cpu(c2) by {
                    assert(kc.cpu(c2) == kb.cpu(c2));
                    assert(kb.cpu(c2) == k0.cpu(c2));
                }
                assert forall|c2: int| 0 <= c2 < k.num_cpu() implies #[trigger] k.queue(c2) == k0.queue(c2) by {
                    assert(kc.queue(c2) == kb.queue(c2));
                    assert(kb.queue(c2) == k0.queue(c2));
                }
                assert(known(k0)(c));
                if c != init {
                    assert(k.tasks()@[init].children@ =~= k0.tasks()@[init].children@ + children@.take(i as int + 1).filter(known(k0)));
                } else {
                    assert(k.tasks()@[init].children@ =~= k0.tasks()@[init].children@ + children@.take(i as int + 1).filter(known(k0)));
                }
                assert forall|t: u32| #[trigger] k0.tasks()@.contains_key(t) implies k.tasks()@[t] == k0.tasks()@[t].updated(
                    TaskUpdate::Ppid(k.tasks()@[t].ppid)).updated(TaskUpdate::Children(k.tasks()@[t].children)) by {
                    assert(kb.tasks()@[t] == k0.tasks()@[t].updated(
                        TaskUpdate::Ppid(kb.tasks()@[t].ppid)).updated(TaskUpdate::Children(kb.tasks()@[t].children)));
                }
                assert forall|t: u32| #[trigger] k0.tasks()@.contains_key(t) implies k.tasks()@[t].ppid == if children@.take(i as int + 1).contains(t) {
                    k0.tasks()@[init].pid
                } else {
                    k0.tasks()@[t].ppid
                } by {
                    let pre = children@.take(i as int);
                    let post = children@.take(i as int + 1);
                    assert(kb.tasks()@[t].ppid == if pre.contains(t) { k0.tasks()@[init].pid } else { k0.tasks()@[t].ppid });
                    if t == c {
                        assert(post[i as int] == c);
                    } else {
                        if pre.contains(t) {
                            let j = choose|j: int| 0 <= j < pre.len() && pre[j] == t;
                            assert(post[j] == t);
                        }
                        if post.contains(t) {
                            let j = choose|j: int| 0 <= j < post.len() && post[j] == t;
                            assert(pre[j] == t);
                        }
                    }
                }
            }
        } else {
            proof {
                assert(!known(k0)(c));
                assert(k.tasks()@[init].children@ =~= k0.tasks()@[init].children@ + children@.take(i as int + 1).filter(known(k0)));
                assert forall|t: u32| #[trigger] k0.tasks()@.contains_key(t) implies k.tasks()@[t].ppid == if children@.take(i as int + 1).contains(t) {
                    k0.tasks()@[init].pid
                } else {
                    k0.tasks()@[t].ppid
                } by {
                    let pre = children@.take(i as int);
                    let post = children@.take(i as int + 1);
                    assert(t != c);
                    if pre.contains(t) {
                        let j = choose|j: int| 0 <= j < pre.len() && pre[j] == t;
                        assert(post[j] == t);
                    }
                    if post.contains(t) {
                        let j = choose|j: int| 0 <= j < post.len() && post[j] == t;
                        assert(pre[j] == t);
                    }
                }
            }
        }
        i = i + 1;
    }
    proof {
        assert(children@.take(i as int) =~= children@);
    }
}

/// Exits every known task in `threads` other than `leader` with `code`.
pub fn exit_other_threads(k: &mut Kernel, threads: &Vec<u32>, leader: u32, code: i32)
    requires
        old(k).wf(),
    ensures
        final(k).wf(),
        final(k).tasks()@.dom() == old(k).tasks()@.dom(),
        final(k).num_cpu() == old(k).num_cpu(),
        final(k).cur_cpu() == old(k).cur_cpu(),
        final(k).tasks().next_tid() == old(k).tasks().next_tid(),
        forall|c: int| 0 <= c < final(k).num_cpu() ==> #[trigger] final(k).cpu(c) == old(k).cpu(c),
        forall|t: u32| #[trigger] old(k).tasks()@.contains_key(t) ==> final(k).tasks()@[t] == if threads@.contains(t) && t != leader {
            old(k).tasks()@[t].with_exit(code)
        } else {
            old(k).tasks()@[t]
        },
{
    let ghost k0 = *k;
    let mut i: usize = 0;
    while i < threads.len()
        invariant
            k.wf(),
            i <= threads@.len(),
            k.tasks()@.dom() == k0.tasks()@.dom(),
            k.num_cpu() == k0.num_cpu(),
            k.cur_cpu() == k0.cur_cpu(),
            k.tasks().next_tid() == k0.tasks().next_tid(),
            forall|c: int| 0 <= c < k.num_cpu() ==> #[trigger] k.cpu(c) == k0.cpu(c),
            forall|t: u32| #[trigger] k0.tasks()@.contains_key(t) ==> k.tasks()@[t] == if threads@.take(i as int).contains(t) && t != leader {
                k0.tasks()@[t].with_exit(code)
            } else {
                k0.tasks()@[t]
            },
        decreases threads@.len() - i,
    {
        let th = threads[i];
        let ghost kb = *k;
        proof {
            assert(threads@.take(i as int + 1) =~= threads@.take(i as int).push(th));
        }
        if th != leader && k.task_manager().contains(th) {
            exit_one(k, th, code);
            proof {
                assert(k.tasks()@.dom() =~= kb.tasks()@.dom());
                assert forall|c: int| 0 <= c < k.num_cpu() implies #[trigger] k.cpu(c) == k0.cpu(c) by {
                    assert(kb.cpu(c) == k0.cpu(c));
                }
            }
        }
        proof {
            assert forall|t: u32| #[trigger] k0.tasks()@.contains_key(t) implies k.tasks()@[t] == if threads@.take(i as int + 1).contains(t) && t != leader {
                k0.tasks()@[t].with_exit(code)
            } else {
                k0.tasks()@[t]
            } by {
                let pre = threads@.take(i as int);
                let post = threads@.take(i as int + 1);
                if t == th {
                    assert(post[i as int] == th);
                } else {
                    if pre.contains(t) {
                        let j = choose|j: int| 0 <= j < pre.len() && pre[j] == t;
                        assert(post[j] == t);
                    }
                    if post.contains(t) {
                        let j = choose|j: int| 0 <= j < post.len() && post[j] == t;
                        assert(pre[j] == t);
                    }
                }
            }
        }
        i = i + 1;
    }
    proof {
        assert(threads@.take(i as int) =~= threads@);
    }
}

/// The parent notified when `tid` exits: its parent, or init when `tid`
/// lists itself among its children (it is then adopted before the notice).
pub open spec fn exit_parent(k: Kernel, tid: u32) -> u32 {
    if k.tasks()@[tid].children@.contains(tid) {
        k.tasks()@[INIT_PID].pid
    } else {
        k.tasks()@[tid].ppid
    }
}

/// Exits the process `tid`: it becomes a zombie with exit code `code`, its
/// other threads become zombies too, its children are adopted by init, and
/// its parent is notified.
pub fn exit_process(k: &mut Kernel, tid: u32, code: i32)
    requires
        old(k).wf(),
        old(k).tasks()@.contains_key(tid),
        old(k).tasks()@[tid].pid == tid,
        old(k).tasks()@.contains_key(INIT_PID),
    ensures
        final(k).wf(),
        final(k).tasks()@.dom() == old(k).tasks()@.dom(),
        final(k).tasks()@[tid].state == TaskState::Zombie,
        final(k).tasks()@[tid].exit_code == Some(code),
        forall|t: u32| #[trigger] old(k).tasks()@.contains_key(t) && t != tid && old(k).tasks()@[t].pid == tid
            ==> final(k).tasks()@[t].state == TaskState::Zombie
            && final(k).tasks()@[t].exit_code == Some(THREAD_GROUP_EXIT_CODE),
        forall|t: u32| #[trigger] old(k).tasks()@.contains_key(t) ==> final(k).tasks()@[t].ppid == if old(k).tasks()@[tid].children@.contains(t) {
            old(k).tasks()@[INIT_PID].pid
        } else {
            old(k).tasks()@[t].ppid
        },
        final(k).tasks()@[INIT_PID].children@ == (if tid == INIT_PID { old(k).tasks()@[INIT_PID].children@ } else {
            old(k).tasks()@[INIT_PID].children@ }) + old(k).tasks()@[tid].children@.filter(known(*old(k))),
        ({
            let p = exit_parent(*old(k), tid);
            old(k).tasks()@.contains_key(p) ==> final(k).tasks()@[p].pending & sig_bit(SIGCHLD) == sig_bit(SIGCHLD)
        }),
        forall|t: u32| #[trigger] old(k).tasks()@.contains_key(t) ==> final(k).tasks()@[t].pid == old(k).tasks()@[t].pid,
        ({
            let p = exit_parent(*old(k), tid);
            let q = old(k).tasks()@[p].wait_child@;
            old(k).tasks()@.contains_key(p) ==> {
                &&& final(k).tasks()@[p].wait_child@ == if q.len() == 0 { q } else { q.drop_first() }
                &&& (q.len() > 0 && old(k).tasks()@.contains_key(q[0]) && old(k).tasks()@[q[0]].pid != tid
                    && (wakeable(old(k).tasks()@[q[0]].state) || old(k).tasks()@[q[0]].state == TaskState::Running))
                    ==> final(k).tasks()@[q[0]].state == TaskState::Running
            }
        }),
{
    exit_one(k, tid, code);
    let ghost k1 = *k;
    let children = k.task_manager().get_process_children(tid);
    let threads = k.task_manager().get_process_threads(tid);
    proof {
        assert(k1.tasks()@.dom() =~= old(k).tasks()@.dom());
        assert(known(k1) == known(*old(k)));
    }
    reparent_children(k, &children, INIT_PID);
    let ghost k2 = *k;
    exit_other_threads(k, &threads, tid, THREAD_GROUP_EXIT_CODE);
    let ghost k3 = *k;
    proof {
        assert forall|c: int| 0 <= c < k3.num_cpu() implies #[trigger] k3.cpu(c) == k1.cpu(c) by {
            assert(k2.cpu(c) == k1.cpu(c));
        }
    }
    proof {
        let ok = *old(k);
        let p = exit_parent(ok, tid);
        if ok.tasks()@.contains_key(p) {
            assert(k1.tasks()@.contains_key(p));
            assert(k2.tasks()@[p] == k1.tasks()@[p].updated(TaskUpdate::Ppid(k2.tasks()@[p].ppid)).updated(
                TaskUpdate::Children(k2.tasks()@[p].children)));
            assert(k3.tasks()@[p].wait_child == ok.tasks()@[p].wait_child);
            let q = ok.tasks()@[p].wait_child@;
            if q.len() > 0 && ok.tasks()@.contains_key(q[0]) && ok.tasks()@[q[0]].pid != tid {
                let w = q[0];
                assert(k2.tasks()@[w] == k1.tasks()@[w].updated(TaskUpdate::Ppid(k2.tasks()@[w].ppid)).updated(
                    TaskUpdate::Children(k2.tasks()@[w].children)));
                assert(!threads@.contains(w));
                assert(k3.tasks()@[w].state == ok.tasks()@[w].state);
            }
        }
        assert(k2.tasks()@[tid] == k1.tasks()@[tid].updated(TaskUpdate::Ppid(k2.tasks()@[tid].ppid)).updated(
            TaskUpdate::Children(k2.tasks()@[tid].children)));
        assert(k3.tasks()@[tid] == k2.tasks()@[tid]);
        assert(k3.tasks()@[tid].ppid == p);
    }
    notify_parent(k, tid);
    proof {
        let ok = *old(k);
        assert forall|t: u32| #[trigger] ok.tasks()@.contains_key(t) && t != tid && ok.tasks()@[t].pid == tid
            implies k.tasks()@[t].state == TaskState::Zombie && k.tasks()@[t].exit_code == Some(THREAD_GROUP_EXIT_CODE) by {
            assert(k1.tasks()@[t] == ok.tasks()@[t]);
            assert(threads@.contains(t));
            assert(k2.tasks()@[t] == k1.tasks()@[t].updated(TaskUpdate::Ppid(k2.tasks()@[t].ppid)).updated(
                TaskUpdate::Children(k2.tasks()@[t].children)));
            assert(k3.tasks()@[t] == k2.tasks()@[t].with_exit(THREAD_GROUP_EXIT_CODE));
        }
        assert(k2.tasks()@[tid] == k1.tasks()@[tid].updated(TaskUpdate::Ppid(k2.tasks()@[tid].ppid)).updated(
            TaskUpdate::Children(k2.tasks()@[tid].children)));
        assert(k3.tasks()@[tid] == k2.tasks()@[tid]);
        assert forall|t: u32| #[trigger] ok.tasks()@.contains_key(t) implies k.tasks()@[t].ppid == if ok.tasks()@[tid].children@.contains(t) {
            ok.tasks()@[INIT_PID].pid
        } else {
            ok.tasks()@[t].ppid
        } by {
            assert(k1.tasks()@.contains_key(t));
            assert(k2.tasks()@.contains_key(t));
            assert(k3.tasks()@.contains_key(t));
        }
        assert forall|t: u32| #[trigger] ok.tasks()@.contains_key(t) implies k.tasks()@[t].pid == ok.tasks()@[t].pid by {
            assert(k1.tasks()@.contains_key(t));
            assert(k2.tasks()@.contains_key(t));
            assert(k2.tasks()@[t] == k1.tasks()@[t].updated(TaskUpdate::Ppid(k2.tasks()@[t].ppid)).updated(
                TaskUpdate::Children(k2.tasks()@[t].children)));
            assert(k3.tasks()@.contains_key(t));
        }
        assert(k3.tasks()@[INIT_PID].children == k2.tasks()@[INIT_PID].children);
    }
}

} // verus!
