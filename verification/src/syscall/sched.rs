//! Scheduling policy system calls.

use vstd::prelude::*;
use crate::cap::Capabilities;
use crate::errno::{EFAULT, EINVAL, EPERM, ESRCH};
use crate::kernel::{Kernel, cur, current_task, has_current};
use crate::task::{Task, TaskUpdate};

verus! {

pub const SCHED_NORMAL: i32 = 0;
pub const SCHED_FIFO: i32 = 1;
pub const SCHED_RR: i32 = 2;
pub const SCHED_BATCH: i32 = 3;
pub const SCHED_IDLE: i32 = 5;
pub const SCHED_DEADLINE: i32 = 6;
pub const SCHED_EXT: i32 = 7;
pub const SCHED_RESET_ON_FORK: i32 = 0x4000_0000;
pub const SCHED_RT_PRIORITY_MIN: i32 = 1;
pub const SCHED_RT_PRIORITY_MAX: i32 = 99;
/// The `CAP_SYS_NICE` bit.
pub const CAP_SYS_NICE_BIT: u64 = 0x80_0000;

/// The task a scheduling call addresses: the caller for pid 0.
pub open spec fn target_of(k: Kernel, pid: i32) -> Result<u32, i32> {
    if pid < 0 {
        Err(ESRCH)
    } else if pid == 0 {
        Ok(cur(k))
    } else if k.tasks()@.contains_key(pid as u32) {
        Ok(pid as u32)
    } else {
        Err(ESRCH)
    }
}

/// The task a scheduling call addresses, or the positive errno.
pub fn get_target_task(k: &Kernel, pid: i32) -> (r: Result<u32, i32>)
    requires
        k.wf(),
        has_current(*k),
    ensures
        r == target_of(*k, pid),
        r matches Ok(t) ==> k.tasks()@.contains_key(t),
{
    if pid < 0 {
        return Err(ESRCH);
    }
    if pid == 0 {
        return Ok(current_task(k));
    }
    if k.task_manager().contains(pid as u32) {
        Ok(pid as u32)
    } else {
        Err(ESRCH)
    }
}

pub open spec fn is_normal_class(p: i32) -> bool {
    p == SCHED_NORMAL || p == SCHED_BATCH || p == SCHED_IDLE
}

pub open spec fn is_rt_class(p: i32) -> bool {
    p == SCHED_FIFO || p == SCHED_RR
}

/// Splits a policy argument into the base policy and the reset-on-fork flag;
/// `EINVAL` for an unknown or unsupported base policy.
pub fn normalize_policy(policy: i32) -> (r: Result<(i32, bool), i32>)
    ensures
        ({
            let base = policy & !SCHED_RESET_ON_FORK;
            if is_normal_class(base) || is_rt_class(base) {
                r == Ok::<(i32, bool), i32>((base, policy & SCHED_RESET_ON_FORK != 0))
            } else {
                r == Err::<(i32, bool), i32>(EINVAL)
            }
        }),
{
    let reset = policy & SCHED_RESET_ON_FORK != 0;
    let base = policy & !SCHED_RESET_ON_FORK;
    if base == SCHED_NORMAL || base == SCHED_FIFO || base == SCHED_RR || base == SCHED_BATCH
        || base == SCHED_IDLE {
        Ok((base, reset))
    } else {
        Err(EINVAL)
    }
}

/// Normal policies take priority 0; real-time ones take 1 to 99.
pub open spec fn valid_sched_param(policy: i32, priority: i32) -> bool {
    if is_normal_class(policy) {
        priority == 0
    } else if is_rt_class(policy) {
        SCHED_RT_PRIORITY_MIN <= priority <= SCHED_RT_PRIORITY_MAX
    } else {
        false
    }
}

/// `Ok` when `priority` suits `policy`, else `EINVAL`.
pub fn validate_sched_param(policy: i32, priority: i32) -> (r: Result<(), i32>)
    ensures
        valid_sched_param(policy, priority) ==> r == Ok::<(), i32>(()),
        !valid_sched_param(policy, priority) ==> r == Err::<(), i32>(EINVAL),
{
    if policy == SCHED_NORMAL || policy == SCHED_BATCH || policy == SCHED_IDLE {
        if priority == 0 {
            Ok(())
        } else {
            Err(EINVAL)
        }
    } else if policy == SCHED_FIFO || policy == SCHED_RR {
        if SCHED_RT_PRIORITY_MIN <= priority && priority <= SCHED_RT_PRIORITY_MAX {
            Ok(())
        } else {
            Err(EINVAL)
        }
    } else {
        Err(EINVAL)
    }
}

/// Whether `me` may give `target` the policy and priority: with
/// `CAP_SYS_NICE` always; otherwise only its own user, a normal policy
/// freely, a real-time one within `RLIMIT_RTPRIO` and without raising the
/// priority of a real-time task.
pub open spec fn sched_permitted(me: Task, target: Task, new_policy: i32, new_priority: i32) -> bool {
    let limit = me.rtprio_limit as i32;
    if me.credential.capabilities.effective.bits & CAP_SYS_NICE_BIT == CAP_SYS_NICE_BIT {
        true
    } else if !(me.credential.euid == target.credential.euid || me.credential.euid == target.credential.uid) {
        false
    } else if is_normal_class(new_policy) {
        true
    } else if is_rt_class(new_policy) {
        limit > 0 && new_priority <= limit && (target.sched_policy == new_policy
            || new_priority <= target.sched_priority || target.sched_priority == 0)
    } else {
        false
    }
}

/// Whether the caller may set `new_policy` and `new_priority` on `target`.
pub fn check_sched_permission(k: &Kernel, target: u32, new_policy: i32, new_priority: i32) -> (r: bool)
    requires
        k.wf(),
        has_current(*k),
        k.tasks()@.contains_key(target),
    ensures
        r == sched_permitted(k.tasks()@[cur(*k)], k.tasks()@[target], new_policy, new_priority),
{
    let me_tid = current_task(k);
    let me = k.task_manager().get_task(me_tid).unwrap();
    let cred = me.credential;
    let rtprio_limit = me.rtprio_limit as i32;
    if cred.capabilities.has(Capabilities { bits: CAP_SYS_NICE_BIT }) {
        return true;
    }
    let t = k.task_manager().get_task(target).unwrap();
    let same_user = cred.euid == t.credential.euid || cred.euid == t.credential.uid;
    if !same_user {
        return false;
    }
    if new_policy == SCHED_NORMAL || new_policy == SCHED_BATCH || new_policy == SCHED_IDLE {
        true
    } else if new_policy == SCHED_FIFO || new_policy == SCHED_RR {
        rtprio_limit > 0 && new_priority <= rtprio_limit && (t.sched_policy == new_policy
            || new_priority <= t.sched_priority || t.sched_priority == 0)
    } else {
        false
    }
}

/// The static priority that a scheduling priority maps to.
pub open spec fn static_priority(priority: i32) -> u8 {
    if priority > 0 { (SCHED_RT_PRIORITY_MAX - priority) as u8 } else { 0 }
}

/// The outcome of `set_scheduler_common`: the negated errno, or the target
/// and the new policy, priority and reset flag.
pub open spec fn set_scheduler_outcome(k: Kernel, pid: i32, policy: Option<i32>, param: Option<i32>)
    -> Result<(u32, i32, i32, bool), i32> {
    match param {
        None => Err((-EFAULT) as i32),
        Some(prio) => match target_of(k, pid) {
            Err(e) => Err((-e) as i32),
            Ok(t) => {
                let task = k.tasks()@[t];
                let base = match policy { Some(p) => p & !SCHED_RESET_ON_FORK, None => task.sched_policy };
                let reset = match policy { Some(p) => p & SCHED_RESET_ON_FORK != 0, None => task.sched_reset_on_fork };
                if policy is Some && !(is_normal_class(base) || is_rt_class(base)) {
                    Err((-EINVAL) as i32)
                } else if !valid_sched_param(base, prio) {
                    Err((-EINVAL) as i32)
                } else if !sched_permitted(k.tasks()@[cur(k)], task, base, prio) {
                    Err((-EPERM) as i32)
                } else {
                    Ok((t, base, prio, reset))
                }
            },
        },
    }
}

/// Sets the policy (when `policy` is given) and priority of `pid`. The
/// priority comes from the caller's `sched_param`, `None` when that pointer
/// is null or not readable.
pub fn set_scheduler_common(k: &mut Kernel, pid: i32, policy: Option<i32>, param: Option<i32>) -> (r: i32)
    requires
        old(k).wf(),
        has_current(*old(k)),
    ensures
        final(k).wf(),
        final(k).same_but_tasks(*old(k)),
        match set_scheduler_outcome(*old(k), pid, policy, param) {
            Err(e) => r == e && final(k).tasks()@ == old(k).tasks()@,
            Ok((t, p, prio, reset)) => r == 0 && final(k).tasks()@ == old(k).tasks()@.insert(t,
                old(k).tasks()@[t].updated(TaskUpdate::Sched(p, prio, reset, static_priority(prio)))),
        },
{
    let prio = match param {
        Some(p) => p,
        None => return -EFAULT,
    };
    let t = match get_target_task(k, pid) {
        Ok(t) => t,
        Err(e) => return -e,
    };
    let (cur_policy, cur_reset) = {
        let task = k.task_manager().get_task(t).unwrap();
        (task.sched_policy, task.sched_reset_on_fork)
    };
    let (new_policy, reset) = match policy {
        Some(raw) => match normalize_policy(raw) {
            Ok(v) => v,
            Err(e) => return -e,
        },
        None => (cur_policy, cur_reset),
    };
    if let Err(e) = validate_sched_param(new_policy, prio) {
        return -e;
    }
    if !check_sched_permission(k, t, new_policy, prio) {
        return -EPERM;
    }
    let sp: u8 = if prio > 0 { (SCHED_RT_PRIORITY_MAX - prio) as u8 } else { 0 };
    k.update_task(t, TaskUpdate::Sched(new_policy, prio, reset, sp));
    0
}

/// Sets the priority of `pid`, keeping its policy.
pub fn sched_setparam(k: &mut Kernel, pid: i32, param: Option<i32>) -> (r: i32)
    requires
        old(k).wf(),
        has_current(*old(k)),
    ensures
        final(k).wf(),
        final(k).same_but_tasks(*old(k)),
        match set_scheduler_outcome(*old(k), pid, None, param) {
            Err(e) => r == e && final(k).tasks()@ == old(k).tasks()@,
            Ok((t, p, prio, reset)) => r == 0 && final(k).tasks()@ == old(k).tasks()@.insert(t,
                old(k).tasks()@[t].updated(TaskUpdate::Sched(p, prio, reset, static_priority(prio)))),
        },
{
    set_scheduler_common(k, pid, None, param)
}

/// Sets the policy and priority of `pid`.
pub fn sched_setscheduler(k: &mut Kernel, pid: i32, policy: i32, param: Option<i32>) -> (r: i32)
    requires
        old(k).wf(),
        has_current(*old(k)),
    ensures
        final(k).wf(),
        final(k).same_but_tasks(*old(k)),
        match set_scheduler_outcome(*old(k), pid, Some(policy), param) {
            Err(e) => r == e && final(k).tasks()@ == old(k).tasks()@,
            Ok((t, p, prio, reset)) => r == 0 && final(k).tasks()@ == old(k).tasks()@.insert(t,
                old(k).tasks()@[t].updated(TaskUpdate::Sched(p, prio, reset, static_priority(prio)))),
        },
{
    set_scheduler_common(k, pid, Some(policy), param)
}

/// What `sched_getscheduler` reports for `pid`: its policy with the
/// reset-on-fork flag folded in, or `-ESRCH`.
pub open spec fn scheduler_of(k: Kernel, pid: i32) -> i32 {
    match target_of(k, pid) {
        Err(e) => (-e) as i32,
        Ok(t) => if k.tasks()@[t].sched_reset_on_fork {
            k.tasks()@[t].sched_policy | SCHED_RESET_ON_FORK
        } else {
            k.tasks()@[t].sched_policy
        },
    }
}

/// The policy of `pid`, with the reset-on-fork flag folded in, or `-ESRCH`.
pub fn sched_getscheduler(k: &Kernel, pid: i32) -> (r: i32)
    requires
        k.wf(),
        has_current(*k),
    ensures
        r == scheduler_of(*k, pid),
{
    let t = match get_target_task(k, pid) {
        Ok(t) => t,
        Err(e) => return -e,
    };
    let task = k.task_manager().get_task(t).unwrap();
    let mut policy = task.sched_policy;
    if task.sched_reset_on_fork {
        policy = policy | SCHED_RESET_ON_FORK;
    }
    policy
}

/// The priority of `pid` to write to the caller's `sched_param`.
/// `param_ok` says whether that pointer is non-null and writable.
pub fn sched_getparam(k: &Kernel, pid: i32, param_ok: bool) -> (r: Result<i32, i32>)
    requires
        k.wf(),
        has_current(*k),
    ensures
        !param_ok ==> r == Err::<i32, i32>((-EFAULT) as i32),
        param_ok ==> match target_of(*k, pid) {
            Err(e) => r == Err::<i32, i32>((-e) as i32),
            Ok(t) => r == Ok::<i32, i32>(k.tasks()@[t].sched_priority),
        },
{
    if !param_ok {
        return Err(-EFAULT);
    }
    let t = match get_target_task(k, pid) {
        Ok(t) => t,
        Err(e) => return Err(-e),
    };
    Ok(k.task_manager().get_task(t).unwrap().sched_priority)
}

/// `sched_getscheduler` gives back what a successful `sched_setscheduler`
/// set: the base policy of `q`, with the reset-on-fork flag exactly when `q`
/// carried it.
pub proof fn lemma_setscheduler_round_trip(k0: Kernel, k1: Kernel, pid: i32, q: i32, param: Option<i32>)
    requires
        k0.wf(),
        has_current(k0),
        set_scheduler_outcome(k0, pid, Some(q), param) is Ok,
        k1.same_but_tasks(k0),
        ({
            let (t, p, prio, reset) = set_scheduler_outcome(k0, pid, Some(q), param)->Ok_0;
            k1.tasks()@ == k0.tasks()@.insert(t, k0.tasks()@[t].updated(TaskUpdate::Sched(p, prio, reset, static_priority(prio))))
        }),
    ensures
        scheduler_of(k1, pid) == if q & SCHED_RESET_ON_FORK != 0 {
            (q & !SCHED_RESET_ON_FORK) | SCHED_RESET_ON_FORK
        } else {
            q & !SCHED_RESET_ON_FORK
        },
{
    k0.lemma_cur_cpu_in_range();
    k0.lemma_current_known();
    assert(k1.cpu(k0.cur_cpu() as int) == k0.cpu(k0.cur_cpu() as int));
    assert(cur(k1) == cur(k0));
    assert(k1.tasks()@.dom() =~= k0.tasks()@.dom());
    assert(target_of(k1, pid) == target_of(k0, pid));
}

} // verus!
