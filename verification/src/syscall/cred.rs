//! User and group id system calls. The kernel runs everything as root:
//! the `set*id` calls accept only root ids and change nothing.

use vstd::prelude::*;
use crate::cred::{ROOT_GID, ROOT_UID, UID_UNCHANGED, GID_UNCHANGED};
use crate::errno::{EFAULT, EPERM};
use crate::kernel::{Kernel, cur, current_task, has_current};
use crate::task::TaskUpdate;

verus! {

/// The real user id of the calling task.
pub fn getuid(k: &Kernel) -> (r: isize)
    requires
        k.wf(),
        has_current(*k),
    ensures
        r == k.tasks()@[cur(*k)].credential.uid as isize,
{
    let t = current_task(k);
    k.task_manager().get_task(t).unwrap().credential.uid as isize
}

/// The effective user id of the calling task.
pub fn geteuid(k: &Kernel) -> (r: isize)
    requires
        k.wf(),
        has_current(*k),
    ensures
        r == k.tasks()@[cur(*k)].credential.euid as isize,
{
    let t = current_task(k);
    k.task_manager().get_task(t).unwrap().credential.euid as isize
}

/// The real group id of the calling task.
pub fn getgid(k: &Kernel) -> (r: isize)
    requires
        k.wf(),
        has_current(*k),
    ensures
        r == k.tasks()@[cur(*k)].credential.gid as isize,
{
    let t = current_task(k);
    k.task_manager().get_task(t).unwrap().credential.gid as isize
}

/// The effective group id of the calling task.
pub fn getegid(k: &Kernel) -> (r: isize)
    requires
        k.wf(),
        has_current(*k),
    ensures
        r == k.tasks()@[cur(*k)].credential.egid as isize,
{
    let t = current_task(k);
    k.task_manager().get_task(t).unwrap().credential.egid as isize
}

/// The real, effective and saved user ids of the calling task, for the
/// caller to store; `-EFAULT` when one of the given places cannot be
/// written (`places_ok` false).
pub fn getresuid(k: &Kernel, places_ok: bool) -> (r: Result<(u32, u32, u32), isize>)
    requires
        k.wf(),
        has_current(*k),
    ensures
        !places_ok ==> r == Err::<(u32, u32, u32), isize>(-EFAULT as isize),
        places_ok ==> ({
            let c = k.tasks()@[cur(*k)].credential;
            r == Ok::<(u32, u32, u32), isize>((c.uid, c.euid, c.suid))
        }),
{
    if !places_ok {
        return Err(-(EFAULT as isize));
    }
    let t = current_task(k);
    let c = &k.task_manager().get_task(t).unwrap().credential;
    Ok((c.uid, c.euid, c.suid))
}

/// The real, effective and saved group ids, as `getresuid` does it.
pub fn getresgid(k: &Kernel, places_ok: bool) -> (r: Result<(u32, u32, u32), isize>)
    requires
        k.wf(),
        has_current(*k),
    ensures
        !places_ok ==> r == Err::<(u32, u32, u32), isize>(-EFAULT as isize),
        places_ok ==> ({
            let c = k.tasks()@[cur(*k)].credential;
            r == Ok::<(u32, u32, u32), isize>((c.gid, c.egid, c.sgid))
        }),
{
    if !places_ok {
        return Err(-(EFAULT as isize));
    }
    let t = current_task(k);
    let c = &k.task_manager().get_task(t).unwrap().credential;
    Ok((c.gid, c.egid, c.sgid))
}

/// 0 for root, `-EPERM` for any other user id.
pub fn setuid(uid: u32) -> (r: isize)
    ensures
        r == if uid == ROOT_UID { 0 } else { -(EPERM as isize) },
{
    if uid == ROOT_UID {
        0
    } else {
        -(EPERM as isize)
    }
}

/// 0 for the root group, `-EPERM` for any other group id.
pub fn setgid(gid: u32) -> (r: isize)
    ensures
        r == if gid == ROOT_GID { 0 } else { -(EPERM as isize) },
{
    if gid == ROOT_GID {
        0
    } else {
        -(EPERM as isize)
    }
}

/// 0 for root, `-EPERM` for any other user id.
pub fn seteuid(euid: u32) -> (r: isize)
    ensures
        r == if euid == ROOT_UID { 0 } else { -(EPERM as isize) },
{
    if euid == ROOT_UID {
        0
    } else {
        -(EPERM as isize)
    }
}

/// 0 for the root group, `-EPERM` for any other group id.
pub fn setegid(egid: u32) -> (r: isize)
    ensures
        r == if egid == ROOT_GID { 0 } else { -(EPERM as isize) },
{
    if egid == ROOT_GID {
        0
    } else {
        -(EPERM as isize)
    }
}

/// An id that a `setres*id` call accepts: root, or "leave unchanged".
pub open spec fn accepted_id(id: u32, root: u32, unchanged: u32) -> bool {
    id == root || id == unchanged
}

/// 0 when each id is root or `UID_UNCHANGED`, else `-EPERM`.
pub fn setresuid(ruid: u32, euid: u32, suid: u32) -> (r: isize)
    ensures
        r == if accepted_id(ruid, ROOT_UID, UID_UNCHANGED) && accepted_id(euid, ROOT_UID, UID_UNCHANGED)
            && accepted_id(suid, ROOT_UID, UID_UNCHANGED) { 0 } else { -(EPERM as isize) },
{
    if (ruid != ROOT_UID && ruid != UID_UNCHANGED) || (euid != ROOT_UID && euid != UID_UNCHANGED)
        || (suid != ROOT_UID && suid != UID_UNCHANGED) {
        return -(EPERM as isize);
    }
    0
}

/// 0 when each id is the root group or `GID_UNCHANGED`, else `-EPERM`.
pub fn setresgid(rgid: u32, egid: u32, sgid: u32) -> (r: isize)
    ensures
        r == if accepted_id(rgid, ROOT_GID, GID_UNCHANGED) && accepted_id(egid, ROOT_GID, GID_UNCHANGED)
            && accepted_id(sgid, ROOT_GID, GID_UNCHANGED) { 0 } else { -(EPERM as isize) },
{
    if (rgid != ROOT_GID && rgid != GID_UNCHANGED) || (egid != ROOT_GID && egid != GID_UNCHANGED)
        || (sgid != ROOT_GID && sgid != GID_UNCHANGED) {
        return -(EPERM as isize);
    }
    0
}

/// Sets the file creation mask of the calling task to the permission bits
/// of `mask` and returns the previous mask.
pub fn umask(k: &mut Kernel, mask: u32) -> (r: isize)
    requires
        old(k).wf(),
        has_current(*old(k)),
    ensures
        final(k).wf(),
        r == old(k).tasks()@[cur(*old(k))].umask as isize,
        final(k).tasks()@ == old(k).tasks()@.insert(cur(*old(k)),
            old(k).tasks()@[cur(*old(k))].updated(TaskUpdate::Umask(mask & 0o777))),
        final(k).same_but_tasks(*old(k)),
{
    let t = current_task(k);
    let old_umask = k.task_manager().get_task(t).unwrap().umask;
    k.update_task(t, TaskUpdate::Umask(mask & 0o777));
    old_umask as isize
}

/// Two calls of `umask` on the same task: the second returns the permission
/// bits of the first mask and leaves the permission bits of its own.
pub proof fn lemma_umask_round_trip(k0: Kernel, k1: Kernel, k2: Kernel, a: u32, b: u32, r2: isize)
    requires
        k0.wf(),
        has_current(k0),
        k1.tasks()@ == k0.tasks()@.insert(cur(k0), k0.tasks()@[cur(k0)].updated(TaskUpdate::Umask(a & 0o777))),
        k1.same_but_tasks(k0),
        r2 == k1.tasks()@[cur(k1)].umask as isize,
        k2.tasks()@ == k1.tasks()@.insert(cur(k1), k1.tasks()@[cur(k1)].updated(TaskUpdate::Umask(b & 0o777))),
        k2.same_but_tasks(k1),
    ensures
        r2 == (a & 0o777) as isize,
        cur(k2) == cur(k0),
        k2.tasks()@[cur(k2)].umask == b & 0o777,
{
    k0.lemma_cur_cpu_in_range();
    assert(k1.cpu(k0.cur_cpu() as int) == k0.cpu(k0.cur_cpu() as int));
    assert(k2.cpu(k1.cur_cpu() as int) == k1.cpu(k1.cur_cpu() as int));
}

} // verus!
