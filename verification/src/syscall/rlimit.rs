//! Resource limits: `getrlimit`, `setrlimit` and `prlimit`.

use vstd::prelude::*;
use crate::errno::{EINVAL, ESRCH};
use crate::kernel::{Kernel, cur, current_task, has_current};

verus! {

/// How many resources have a limit.
pub const RLIM_NLIMITS: usize = 16;
/// No limit.
pub const RLIM_INFINITY: u64 = 0xffff_ffff_ffff_ffff;

/// A soft and a hard limit.
#[derive(Clone, Copy, Debug, PartialEq, Eq, Structural)]
pub struct Rlimit {
    pub rlim_cur: u64,
    pub rlim_max: u64,
}

/// The limits of a process, one per resource, shared by its threads.
pub struct RlimitStruct {
    limits: Vec<Rlimit>,
}

/// `resource` names a limit.
pub open spec fn valid_resource(resource: i32) -> bool {
    0 <= resource < RLIM_NLIMITS
}

impl RlimitStruct {
    pub closed spec fn view(&self) -> Seq<Rlimit> {
        self.limits@
    }

    pub closed spec fn wf(&self) -> bool {
        self.limits@.len() == RLIM_NLIMITS
    }

    /// A table holding `init`, one limit per resource.
    pub fn new(init: Vec<Rlimit>) -> (r: Self)
        requires
            init@.len() == RLIM_NLIMITS,
        ensures
            r.wf(),
            r@ == init@,
    {
        RlimitStruct { limits: init }
    }

    /// The limit of `resource`.
    pub fn get(&self, resource: usize) -> (r: Rlimit)
        requires
            self.wf(),
            resource < RLIM_NLIMITS,
        ensures
            r == self@[resource as int],
    {
        self.limits[resource]
    }

    /// Sets the limit of `resource`.
    pub fn set(&mut self, resource: usize, lim: Rlimit)
        requires
            old(self).wf(),
            resource < RLIM_NLIMITS,
        ensures
            final(self).wf(),
            final(self)@ == old(self)@.update(resource as int, lim),
    {
        self.limits.set(resource, lim);
    }
}

/// `getrlimit`: the limit of `resource`, or `-EINVAL` for no such resource.
pub fn getrlimit(limits: &RlimitStruct, resource: i32) -> (r: Result<Rlimit, i32>)
    requires
        limits.wf(),
    ensures
        !valid_resource(resource) ==> r == Err::<Rlimit, i32>(-EINVAL as i32),
        valid_resource(resource) ==> r == Ok::<Rlimit, i32>(limits@[resource as int]),
{
    if resource < 0 || resource as usize >= RLIM_NLIMITS {
        return Err(-EINVAL);
    }
    Ok(limits.get(resource as usize))
}

/// `setrlimit`: `-EINVAL` for no such resource or a soft limit above the
/// hard one; else the limit is set and 0 returned.
pub fn setrlimit(limits: &mut RlimitStruct, resource: i32, new_limit: Rlimit) -> (r: i32)
    requires
        old(limits).wf(),
    ensures
        final(limits).wf(),
        valid_resource(resource) && new_limit.rlim_cur <= new_limit.rlim_max ==>
            r == 0 && final(limits)@ == old(limits)@.update(resource as int, new_limit),
        !(valid_resource(resource) && new_limit.rlim_cur <= new_limit.rlim_max) ==>
            r == -EINVAL && final(limits)@ == old(limits)@,
{
    if resource < 0 || resource as usize >= RLIM_NLIMITS {
        return -EINVAL;
    }
    if new_limit.rlim_cur > new_limit.rlim_max {
        return -EINVAL;
    }
    limits.set(resource as usize, new_limit);
    0
}

/// The process whose limits `prlimit` works on: `-EINVAL` for no such
/// resource; pid 0 is the caller; another pid must be a task, else `-ESRCH`.
pub fn prlimit_target(k: &Kernel, pid: i32, resource: i32) -> (r: Result<u32, i32>)
    requires
        k.wf(),
        has_current(*k),
    ensures
        !valid_resource(resource) ==> r == Err::<u32, i32>(-EINVAL as i32),
        valid_resource(resource) && pid == 0 ==> r == Ok::<u32, i32>(cur(*k)),
        valid_resource(resource) && pid != 0 && k.tasks()@.contains_key(pid as u32) ==> r == Ok::<u32, i32>(pid as u32),
        valid_resource(resource) && pid != 0 && !k.tasks()@.contains_key(pid as u32) ==> r == Err::<u32, i32>(-ESRCH as i32),
{
    if resource < 0 || resource as usize >= RLIM_NLIMITS {
        return Err(-EINVAL);
    }
    if pid == 0 {
        return Ok(current_task(k));
    }
    #[verifier::truncate]
    let p = pid as u32;
    if k.task_manager().contains(p) { Ok(p) } else { Err(-ESRCH) }
}

/// `prlimit` on the limits of the target process, `resource` valid: the
/// old limit, when asked for (`want_old`), is read first; then a new one,
/// if given, is set unless its soft limit is above its hard one (`-EINVAL`,
/// the old limit is still handed back).
pub fn prlimit(limits: &mut RlimitStruct, resource: i32, want_old: bool, new_limit: Option<Rlimit>)
    -> (r: (i32, Option<Rlimit>))
    requires
        old(limits).wf(),
        valid_resource(resource),
    ensures
        final(limits).wf(),
        r.1 == if want_old { Some(old(limits)@[resource as int]) } else { None },
        match new_limit {
            None => r.0 == 0 && final(limits)@ == old(limits)@,
            Some(n) => if n.rlim_cur <= n.rlim_max {
                r.0 == 0 && final(limits)@ == old(limits)@.update(resource as int, n)
            } else {
                r.0 == -EINVAL && final(limits)@ == old(limits)@
            },
        },
{
    let res = resource as usize;
    let old_limit = if want_old { Some(limits.get(res)) } else { None };
    match new_limit {
        None => (0, old_limit),
        Some(n) => {
            if n.rlim_cur > n.rlim_max {
                return (-EINVAL, old_limit);
            }
            limits.set(res, n);
            (0, old_limit)
        },
    }
}

} // verus!
