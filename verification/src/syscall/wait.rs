//! `wait4`: finding a child whose state changed, sleeping until one does,
//! and reaping it.

use vstd::prelude::*;
use crate::errno::EINVAL;
use crate::kernel::{Kernel, cur, current_task, has_current, home_cpu, referenced, sleep_task};
use crate::scheduler::sleep_state;
use crate::task::{Task, TaskState, TaskUpdate};
use crate::task_queue::{TaskQueue, other_than};

verus! {

pub const WNOHANG: i32 = 1;
pub const WUNTRACED: i32 = 2;
pub const WEXITED: i32 = 4;
pub const WCONTINUED: i32 = 8;
pub const WNOWAIT: i32 = 0x0100_0000;
/// Every option bit `wait4` knows.
pub const WAIT_KNOWN: i32 = 0x0100_000f;

pub open spec fn wait_options_valid(options: i32) -> bool {
    options >= 0 && options & !WAIT_KNOWN == 0
}

/// Whether child `c` is one that `pid` asks for (-1: any child, 0: the
/// caller's process group, > 0: that process, < -1: process group `-pid`).
pub open spec fn wait_pid_matches(pid: i32, cur_pgid: u32, c: Task) -> bool {
    if pid == -1 {
        true
    } else if pid == 0 {
        c.pgid == cur_pgid
    } else if pid > 0 {
        c.pid == pid as u32
    } else {
        c.pgid == (-(pid as int)) as u32
    }
}

/// Whether a child in state `s` is reported under `options`: exited
/// children unless only stopped or continued ones are asked for, running
/// ones under `WCONTINUED`, stopped (and exited) ones under `WUNTRACED`.
pub open spec fn wait_state_matches(options: i32, s: TaskState) -> bool {
    let exited = options & WEXITED != 0 || (options & WUNTRACED == 0 && options & WCONTINUED == 0);
    ||| exited && s == TaskState::Zombie
    ||| options & WCONTINUED != 0 && s == TaskState::Running
    ||| options & WUNTRACED != 0 && (s == TaskState::Stopped || s == TaskState::Zombie)
}

pub open spec fn child_ready(k: Kernel, pid: i32, cur_pgid: u32, options: i32, c: u32) -> bool {
    &&& k.tasks()@.contains_key(c)
    &&& wait_pid_matches(pid, cur_pgid, k.tasks()@[c])
    &&& wait_state_matches(options, k.tasks()@[c].state)
}

/// `i` is the first position in `children` of a ready child.
pub open spec fn first_ready(k: Kernel, children: Seq<u32>, pid: i32, cur_pgid: u32, options: i32, i: int) -> bool {
    &&& 0 <= i < children.len()
    &&& child_ready(k, pid, cur_pgid, options, children[i])
    &&& forall|j: int| 0 <= j < i ==> !child_ready(k, pid, cur_pgid, options, #[trigger] children[j])
}

pub open spec fn none_ready(k: Kernel, children: Seq<u32>, pid: i32, cur_pgid: u32, options: i32) -> bool {
    forall|j: int| 0 <= j < children.len() ==> !child_ready(k, pid, cur_pgid, options, #[trigger] children[j])
}

/// What one pass of `wait4` decided.
#[derive(Clone, Copy, Debug, PartialEq, Eq, Structural)]
pub enum WaitStep {
    /// This child changed state.
    Found(u32),
    /// Nothing yet and `WNOHANG` was given: `wait4` returns 0.
    NoHang,
    /// The caller now sleeps on its `wait_child` queue; after it is woken
    /// the pass is repeated.
    Slept,
}

/// The first ready child among `children`, by position.
fn find_ready(k: &Kernel, children: &Vec<u32>, pid: i32, cur_pgid: u32, options: i32) -> (r: Option<usize>)
    requires
        k.wf(),
    ensures
        r matches Some(i) ==> first_ready(*k, children@, pid, cur_pgid, options, i as int),
        r is None ==> none_ready(*k, children@, pid, cur_pgid, options),
{
    let mut i: usize = 0;
    while i < children.len()
        invariant
            k.wf(),
            i <= children@.len(),
            forall|j: int| 0 <= j < i ==> !child_ready(*k, pid, cur_pgid, options, #[trigger] children@[j]),
        decreases children@.len() - i,
    {
        let c = children[i];
        match k.task_manager().get_task(c) {
            Some(t) => {
                let pid_ok = if pid == -1 {
                    true
                } else if pid == 0 {
                    t.pgid == cur_pgid
                } else if pid > 0 {
                    t.pid == pid as u32
                } else {
                    #[verifier::truncate]
                    let g = (0i64 - pid as i64) as u32;
                    t.pgid == g
                };
                let exited = options & WEXITED != 0 || (options & WUNTRACED == 0 && options & WCONTINUED == 0);
                let s = t.state;
                let state_ok = (exited && s == TaskState::Zombie)
                    || (options & WCONTINUED != 0 && s == TaskState::Running)
                    || (options & WUNTRACED != 0 && (s == TaskState::Stopped || s == TaskState::Zombie));
                if pid_ok && state_ok {
                    return Some(i);
                }
            },
            None => {},
        }
        i = i + 1;
    }
    None
}

/// The children list without position `i`.
fn without_index(v: &Vec<u32>, i: usize) -> (r: Vec<u32>)
    requires
        i < v@.len(),
    ensures
        r@ == v@.remove(i as int),
{
    let mut r = v.clone();
    r.remove(i);
    r
}

/// Looks in the children of `parent` for the first one that `pid` and
/// `options` ask for (the caller's process group is `parent`'s). When
/// `remove` is set and that child has exited, it leaves the children list;
/// nothing else changes.
pub fn check_child(k: &mut Kernel, parent: u32, pid: i32, options: i32, remove: bool) -> (r: Option<u32>)
    requires
        old(k).wf(),
        old(k).tasks()@.contains_key(parent),
    ensures
        final(k).wf(),
        final(k).same_but_tasks(*old(k)),
        ({
            let t = old(k).tasks()@[parent];
            match r {
                Some(c) => exists|i: int| #[trigger] first_ready(*old(k), t.children@, pid, t.pgid, options, i)
                    && t.children@[i] == c
                    && if remove && old(k).tasks()@[c].state == TaskState::Zombie {
                            &&& final(k).tasks()@[parent].children@ == t.children@.remove(i)
                            &&& final(k).tasks()@ == old(k).tasks()@.insert(parent, Task { children: final(k).tasks()@[parent].children, ..t })
                        } else {
                            *final(k) == *old(k)
                        },
                None => none_ready(*old(k), t.children@, pid, t.pgid, options) && *final(k) == *old(k),
            }
        }),
{
    proof { k.lemma_task_tid(parent); }
    let t = k.task_manager().get_task(parent).unwrap();
    let cur_pgid = t.pgid;
    let children = t.children.clone();
    match find_ready(k, &children, pid, cur_pgid, options) {
        Some(i) => {
            let c = children[i];
            let zombie = k.task_manager().get_task(c).unwrap().state == TaskState::Zombie;
            if remove && zombie {
                let rest = without_index(&children, i);
                k.update_task(parent, TaskUpdate::Children(rest));
            }
            proof {
                assert(first_ready(*old(k), children@, pid, cur_pgid, options, i as int));
            }
            Some(c)
        },
        None => None,
    }
}

/// One pass of `wait4` for the calling task. Options with unknown bits give
/// `EINVAL`. Otherwise the first ready child in the caller's list is
/// reported, and taken off the list when it has exited unless `WNOWAIT` is
/// given; with none, `WNOHANG` returns at once, and without it the caller
/// queues itself on its own `wait_child` queue and sleeps interruptibly.
pub fn wait4(k: &mut Kernel, pid: i32, options: i32) -> (r: Result<WaitStep, i32>)
    requires
        old(k).wf(),
        has_current(*old(k)),
    ensures
        final(k).wf(),
        !wait_options_valid(options) ==> r == Err::<WaitStep, i32>(EINVAL) && *final(k) == *old(k),
        wait_options_valid(options) ==> r is Ok,
        r matches Ok(WaitStep::Found(c)) ==> final(k).same_but_tasks(*old(k)) && ({
            let me = cur(*old(k));
            let t = old(k).tasks()@[me];
            exists|i: int| #[trigger] first_ready(*old(k), t.children@, pid, t.pgid, options, i)
                && t.children@[i] == c
                && if options & WNOWAIT == 0 && old(k).tasks()@[c].state == TaskState::Zombie {
                        &&& final(k).tasks()@[me].children@ == t.children@.remove(i)
                        &&& final(k).tasks()@ == old(k).tasks()@.insert(me, Task { children: final(k).tasks()@[me].children, ..t })
                    } else {
                        final(k).tasks()@ == old(k).tasks()@
                    }
        }),
        r matches Ok(WaitStep::NoHang) ==> ({
            let t = old(k).tasks()@[cur(*old(k))];
            &&& none_ready(*old(k), t.children@, pid, t.pgid, options)
            &&& options & WNOHANG != 0
            &&& *final(k) == *old(k)
        }),
        r matches Ok(WaitStep::Slept) ==> ({
            let me = cur(*old(k));
            let t = old(k).tasks()@[me];
            &&& none_ready(*old(k), t.children@, pid, t.pgid, options)
            &&& options & WNOHANG == 0
            &&& final(k).tasks()@.dom() == old(k).tasks()@.dom()
            &&& forall|x: u32| x != me ==> #[trigger] final(k).tasks()@.get(x) == old(k).tasks()@.get(x)
            &&& final(k).tasks()@[me].state == sleep_state(true)
            &&& final(k).tasks()@[me].wait_child@ == (if t.wait_child@.contains(me) { t.wait_child@ } else { t.wait_child@.push(me) })
            &&& final(k).tasks()@[me].with_state(t.state).with_wait_child_of(t) == t
            &&& final(k).queue(home_cpu(*old(k), me)) == old(k).queue(home_cpu(*old(k), me)).filter(other_than(me))
            &&& final(k).queues_but(*old(k), home_cpu(*old(k), me))
            &&& final(k).cpus_same(*old(k))
        }),
{
    if options < 0 || options & !WAIT_KNOWN != 0 {
        return Err(EINVAL);
    }
    let me = current_task(k);
    proof { k.lemma_task_tid(me); }
    match check_child(k, me, pid, options, options & WNOWAIT == 0) {
        Some(c) => Ok(WaitStep::Found(c)),
        None => {
            if options & WNOHANG != 0 {
                return Ok(WaitStep::NoHang);
            }
            let ghost k0 = *k;
            k.add_wait_child(me, me);
            let ghost k1 = *k;
            sleep_task(k, me, true);
            proof {
                k0.lemma_home_cpu_in_range(me);
                assert(home_cpu(k1, me) == home_cpu(k0, me));
                assert(k1.queue(home_cpu(k0, me)) == k0.queue(home_cpu(k0, me)));
                assert forall|x: u32| x != me implies #[trigger] k.tasks()@.get(x) == old(k).tasks()@.get(x) by {
                    assert(k1.tasks()@.get(x) == k0.tasks()@.get(x));
                }
                assert(k.tasks()@.dom() =~= old(k).tasks()@.dom());
                assert forall|d: int| 0 <= d < k.num_cpu() && d != home_cpu(k0, me) implies #[trigger] k.queue(d) == old(k).queue(d) by {
                    assert(k1.queue(d) == k0.queue(d));
                }
                let t0 = old(k).tasks()@[me];
                assert(k.tasks()@[me].state == sleep_state(true));
                assert(k.tasks()@[me].wait_child@ == (if t0.wait_child@.contains(me) { t0.wait_child@ } else { t0.wait_child@.push(me) }));
                assert(k.tasks()@[me].with_state(t0.state).with_wait_child_of(t0) == t0);
                assert(k.queue(home_cpu(*old(k), me)) == old(k).queue(home_cpu(*old(k), me)).filter(other_than(me)));
                assert(k.cpus_same(*old(k)));
            }
            Ok(WaitStep::Slept)
        },
    }
}

/// The status word `wait4` reports for a child in `state`: the exit code in
/// bits 8..16 for an exited child, `0x7f` for a stopped one, `0xffff` for a
/// continued one.
pub open spec fn wait_status(state: TaskState, exit_code: i32) -> i32 {
    match state {
        TaskState::Zombie => (((exit_code as u8) as int) * 256) as i32,
        TaskState::Stopped => 0x7f,
        _ => 0xffff,
    }
}

pub open spec fn reportable(t: Task) -> bool {
    ||| t.state == TaskState::Zombie && t.exit_code is Some
    ||| t.state == TaskState::Stopped
    ||| t.state == TaskState::Running
}

/// Finishes `wait4` for child `c` found by `wait4`: returns its tid and
/// status word; an exited child reaped without `WNOWAIT` leaves the
/// caller's children and the task table (if nothing still runs it).
pub fn wait4_finish(k: &mut Kernel, c: u32, options: i32) -> (r: (i32, i32))
    requires
        old(k).wf(),
        has_current(*old(k)),
        old(k).tasks()@.contains_key(c),
        reportable(old(k).tasks()@[c]),
    ensures
        final(k).wf(),
        final(k).same_but_tasks(*old(k)),
        r.0 == #[verifier::truncate] (c as i32),
        r.1 == wait_status(old(k).tasks()@[c].state, old(k).tasks()@[c].exit_code.unwrap_or(0)),
        ({
            let me = cur(*old(k));
            let t = old(k).tasks()@[me];
            if old(k).tasks()@[c].state == TaskState::Zombie && options & WNOWAIT == 0 {
                let after = old(k).tasks()@.insert(me, Task { children: final(k).tasks()@[me].children, ..t });
                &&& final(k).tasks()@[me].children@ == t.children@.filter(other_than(c))
                &&& if referenced(*old(k), c) && c != me { final(k).tasks()@ == after } else if c != me { final(k).tasks()@ == after.remove(c) } else { true }
            } else {
                final(k).tasks()@ == old(k).tasks()@
            }
        }),
{
    proof { k.lemma_task_tid(c); }
    let child = k.task_manager().get_task(c).unwrap();
    let state = child.state;
    let status: i32 = match state {
        TaskState::Zombie => {
            let code = child.exit_code.unwrap();
            #[verifier::truncate]
            let b = code as u8;
            (b as i32) * 256
        },
        TaskState::Stopped => 0x7f,
        _ => 0xffff,
    };
    if state == TaskState::Zombie && options & WNOWAIT == 0 {
        let me = current_task(k);
        let ghost k0 = *k;
        let list = k.task_manager().get_task(me).unwrap().children.clone();
        let mut q = TaskQueue::from_vec(list);
        q.remove_task(c);
        let rest = q.into_vec();
        k.update_task(me, TaskUpdate::Children(rest));
        let ghost k1 = *k;
        if c != me {
            let released = k.release_task(c);
            proof {
                crate::kernel::lemma_referenced_same(k1, k0, c);
            }
        }
    }
    #[verifier::truncate]
    let ct = c as i32;
    (ct, status)
}


/// The status word of a child that exited with `code`, read as the C
/// library does: the low seven bits are 0 (it exited, not by a signal) and
/// bits 8..16 hold the low byte of the exit code. A stopped child reads
/// 0x7f in the low byte; a continued one reads 0xffff.
pub proof fn law_wait_status_decodes(code: i32)
    ensures
        wait_status(TaskState::Zombie, code) % 128 == 0,
        wait_status(TaskState::Zombie, code) / 256 == (code as u8) as int,
        wait_status(TaskState::Zombie, code) >= 0,
        wait_status(TaskState::Stopped, code) % 256 == 0x7f,
        wait_status(TaskState::Running, code) == 0xffff,
{
    let b = (code as u8) as int;
    assert(0 <= b < 256);
    assert((b * 256) % 128 == 0) by (nonlinear_arith) requires 0 <= b < 256;
    assert((b * 256) / 256 == b) by (nonlinear_arith) requires 0 <= b < 256;
}

} // verus!
