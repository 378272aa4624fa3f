//! Process id, process group and session system calls.

use vstd::prelude::*;
use crate::errno::{EINVAL, EPERM, ESRCH};
use crate::kernel::{Kernel, cur, current_task, has_current, yield_task, can_schedule, scheduled};
use crate::scheduler::SwitchPlan;
use crate::task::TaskUpdate;

verus! {

/// The size in bytes of a robust futex list head (three pointers).
pub const ROBUST_LIST_HEAD_SIZE: usize = 24;

/// The process id of the calling task.
pub fn get_pid(k: &Kernel) -> (r: i32)
    requires
        k.wf(),
        has_current(*k),
    ensures
        r == k.tasks()@[cur(*k)].pid as i32,
{
    let t = current_task(k);
    k.task_manager().get_task(t).unwrap().pid as i32
}

/// The parent process id of the calling task.
pub fn get_ppid(k: &Kernel) -> (r: i32)
    requires
        k.wf(),
        has_current(*k),
    ensures
        r == k.tasks()@[cur(*k)].ppid as i32,
{
    let t = current_task(k);
    k.task_manager().get_task(t).unwrap().ppid as i32
}

/// The thread id of the calling task.
pub fn gettid(k: &Kernel) -> (r: i32)
    requires
        k.wf(),
        has_current(*k),
    ensures
        r == k.tasks()@[cur(*k)].tid as i32,
{
    let t = current_task(k);
    k.task_manager().get_task(t).unwrap().tid as i32
}

/// The process group of `pid` (0: the caller); `-ESRCH` for a negative or
/// unknown pid.
pub fn get_pgid(k: &Kernel, pid: i32) -> (r: i32)
    requires
        k.wf(),
        has_current(*k),
    ensures
        pid == 0 ==> r == k.tasks()@[cur(*k)].pgid as i32,
        pid < 0 ==> r == -ESRCH,
        pid > 0 && k.tasks()@.contains_key(pid as u32) ==> r == k.tasks()@[pid as u32].pgid as i32,
        pid > 0 && !k.tasks()@.contains_key(pid as u32) ==> r == -ESRCH,
{
    if pid == 0 {
        let t = current_task(k);
        return k.task_manager().get_task(t).unwrap().pgid as i32;
    }
    if pid < 0 {
        return -ESRCH;
    }
    match k.task_manager().get_task(pid as u32) {
        Some(t) => t.pgid as i32,
        None => -ESRCH,
    }
}

/// The outcome of `set_pgid`: the error, or `None` when task `target` gets
/// process group `pgid`.
pub open spec fn set_pgid_outcome(k: Kernel, pid: i32, pgid: i32) -> Result<(u32, u32), i32> {
    let me = k.tasks()@[cur(k)].tid as i32;
    let target = if pid == 0 { me } else { pid };
    let group = if pgid == 0 { target } else { pgid };
    if group < 0 {
        Err((-EINVAL) as i32)
    } else if !k.tasks()@.contains_key(target as u32) {
        Err((-ESRCH) as i32)
    } else if target != me && k.tasks()@[target as u32].ppid as i32 != me {
        Err((-ESRCH) as i32)
    } else if k.tasks()@[target as u32].pgid == k.tasks()@[target as u32].tid {
        Err((-EPERM) as i32)
    } else {
        Ok((target as u32, group as u32))
    }
}

/// Moves `pid` (0: the caller) into process group `pgid` (0: its own pid).
/// Only the caller or one of its children may be moved, and a group leader
/// may not.
pub fn set_pgid(k: &mut Kernel, pid: i32, pgid: i32) -> (r: i32)
    requires
        old(k).wf(),
        has_current(*old(k)),
    ensures
        final(k).wf(),
        final(k).same_but_tasks(*old(k)),
        match set_pgid_outcome(*old(k), pid, pgid) {
            Err(e) => r == e && final(k).tasks()@ == old(k).tasks()@,
            Ok((t, g)) => r == 0 && final(k).tasks()@ == old(k).tasks()@.insert(t,
                old(k).tasks()@[t].updated(TaskUpdate::Pgid(g))),
        },
{
    let me_tid = current_task(k);
    let current_pid = k.task_manager().get_task(me_tid).unwrap().tid as i32;
    let target_pid = if pid == 0 { current_pid } else { pid };
    let target_pgid = if pgid == 0 { target_pid } else { pgid };
    if target_pgid < 0 {
        return -EINVAL;
    }
    let (ppid, tpgid, ttid) = match k.task_manager().get_task(target_pid as u32) {
        Some(t) => (t.ppid, t.pgid, t.tid),
        None => return -ESRCH,
    };
    if target_pid != current_pid && ppid as i32 != current_pid {
        return -ESRCH;
    }
    if tpgid == ttid {
        return -EPERM;
    }
    k.update_task(target_pid as u32, TaskUpdate::Pgid(target_pgid as u32));
    0
}

/// Starts a new session: the calling process becomes the leader of a group
/// numbered by its pid. `-EPERM` when it leads its group already.
pub fn setsid(k: &mut Kernel) -> (r: i32)
    requires
        old(k).wf(),
        has_current(*old(k)),
    ensures
        final(k).wf(),
        final(k).same_but_tasks(*old(k)),
        ({
            let t = old(k).tasks()@[cur(*old(k))];
            if t.pid == t.pgid {
                r == -EPERM && final(k).tasks()@ == old(k).tasks()@
            } else {
                r == t.pid as i32 && final(k).tasks()@ == old(k).tasks()@.insert(cur(*old(k)),
                    t.updated(TaskUpdate::Pgid(t.pid)))
            }
        }),
{
    let t = current_task(k);
    let (pid, pgid) = {
        let task = k.task_manager().get_task(t).unwrap();
        (task.pid, task.pgid)
    };
    if pid == pgid {
        return -EPERM;
    }
    k.update_task(t, TaskUpdate::Pgid(pid));
    pid as i32
}

/// Yields the CPU (one run of the scheduler, see `scheduled`) and returns 0.
pub fn sched_yield(k: &mut Kernel) -> (r: i32)
    requires
        old(k).wf(),
        can_schedule(*old(k)),
    ensures
        final(k).wf(),
        exists|plan: Option<SwitchPlan>| scheduled(*old(k), *final(k), plan),
        r == 0,
{
    let plan = yield_task(k);
    proof {
        assert(scheduled(*old(k), *k, plan));
    }
    0
}

/// Records where to clear the thread id when the caller exits, and returns
/// the caller's tid.
pub fn set_tid_address(k: &mut Kernel, tidptr: usize) -> (r: i32)
    requires
        old(k).wf(),
        has_current(*old(k)),
    ensures
        final(k).wf(),
        final(k).same_but_tasks(*old(k)),
        r == old(k).tasks()@[cur(*old(k))].tid as i32,
        final(k).tasks()@ == old(k).tasks()@.insert(cur(*old(k)),
            old(k).tasks()@[cur(*old(k))].updated(TaskUpdate::ClearChildTid(Some(tidptr)))),
{
    let t = current_task(k);
    k.update_task(t, TaskUpdate::ClearChildTid(Some(tidptr)));
    k.task_manager().get_task(t).unwrap().tid as i32
}

/// Records the robust futex list head of the caller; `-EINVAL` unless
/// `size` is the size of a list head.
pub fn set_robust_list(k: &mut Kernel, head: usize, size: usize) -> (r: i32)
    requires
        old(k).wf(),
        has_current(*old(k)),
    ensures
        final(k).wf(),
        final(k).same_but_tasks(*old(k)),
        size != ROBUST_LIST_HEAD_SIZE ==> r == -EINVAL && final(k).tasks()@ == old(k).tasks()@,
        size == ROBUST_LIST_HEAD_SIZE ==> r == 0 && final(k).tasks()@ == old(k).tasks()@.insert(cur(*old(k)),
            old(k).tasks()@[cur(*old(k))].updated(TaskUpdate::RobustList(Some(head)))),
{
    if size != ROBUST_LIST_HEAD_SIZE {
        return -EINVAL;
    }
    let t = current_task(k);
    k.update_task(t, TaskUpdate::RobustList(Some(head)));
    0
}

/// The robust list head (0 when unset) and the head size of `pid` (0: the
/// caller), or `-ESRCH`.
pub fn get_robust_list(k: &Kernel, pid: i32) -> (r: Result<(usize, usize), i32>)
    requires
        k.wf(),
        has_current(*k),
    ensures
        ({
            let target = if pid == 0 { cur(*k) } else { pid as u32 };
            if pid != 0 && !k.tasks()@.contains_key(pid as u32) {
                r == Err::<(usize, usize), i32>((-ESRCH) as i32)
            } else {
                r == Ok::<(usize, usize), i32>((
                    match k.tasks()@[target].robust_list { Some(h) => h, None => 0usize },
                    ROBUST_LIST_HEAD_SIZE,
                ))
            }
        }),
{
    let target = if pid == 0 {
        current_task(k)
    } else {
        pid as u32
    };
    match k.task_manager().get_task(target) {
        Some(t) => {
            let head = match t.robust_list {
                Some(h) => h,
                None => 0,
            };
            Ok((head, ROBUST_LIST_HEAD_SIZE))
        },
        None => Err(-ESRCH),
    }
}

} // verus!
