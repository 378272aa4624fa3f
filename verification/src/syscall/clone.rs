//! `clone`: checking the flags and building the child task.

use vstd::prelude::*;
use crate::errno::{EINVAL, ENOMEM, ENOSYS};
use crate::kernel::{Kernel, cur, current_task, has_current, pick_cpu, spawn_task};
use crate::task::{Task, TaskUpdate, NSIG};

verus! {

/// The low byte of the flags: the signal sent to the parent when the child exits.
pub const CSIGNAL: u64 = 0xff;
pub const CLONE_VM: u64 = 0x100;
pub const CLONE_FS: u64 = 0x200;
pub const CLONE_FILES: u64 = 0x400;
pub const CLONE_SIGHAND: u64 = 0x800;
pub const CLONE_VFORK: u64 = 0x4000;
pub const CLONE_PARENT: u64 = 0x8000;
pub const CLONE_THREAD: u64 = 0x10000;
pub const CLONE_SYSVSEM: u64 = 0x40000;
pub const CLONE_SETTLS: u64 = 0x80000;
pub const CLONE_PARENT_SETTID: u64 = 0x100000;
pub const CLONE_CHILD_CLEARTID: u64 = 0x200000;
pub const CLONE_DETACHED: u64 = 0x400000;
pub const CLONE_CHILD_SETTID: u64 = 0x1000000;

/// Every bit that names a clone flag (or the exit signal).
pub const CLONE_ALL_BITS: u64 = 0xffff_ffff;

/// The flags this kernel implements.
pub const CLONE_SUPPORTED: u64 = 0x15cdfff;

pub open spec fn flag_set(flags: u64, bit: u64) -> bool {
    flags & bit != 0
}

/// Why `clone` refuses `flags` and `stack`, if it does.
pub open spec fn clone_flags_error(flags: u64, stack: u64) -> Option<i32> {
    if flags & !CLONE_ALL_BITS != 0 || (flags & CSIGNAL) > NSIG {
        Some(EINVAL)
    } else if flags & !CLONE_SUPPORTED != 0 {
        Some(ENOSYS)
    } else if flag_set(flags, CLONE_VM) && stack == 0 {
        Some(EINVAL)
    } else {
        None
    }
}

/// Checks the flags of a `clone` call: unknown bits or an exit signal
/// beyond the last signal give `EINVAL`, flags this kernel does not
/// implement `ENOSYS`, and a shared address space without a new stack
/// `EINVAL`.
pub fn check_clone_flags(flags: u64, stack: u64) -> (r: Result<(), i32>)
    ensures
        r is Err <==> clone_flags_error(flags, stack) is Some,
        r matches Err(e) ==> clone_flags_error(flags, stack) == Some(e),
{
    if flags & !CLONE_ALL_BITS != 0 || (flags & CSIGNAL) > NSIG as u64 {
        return Err(EINVAL);
    }
    if flags & !CLONE_SUPPORTED != 0 {
        return Err(ENOSYS);
    }
    if flags & CLONE_VM != 0 && stack == 0 {
        return Err(EINVAL);
    }
    Ok(())
}

/// What the caller does to finish a successful `clone`: the new thread id,
/// which resources the child shares with the parent, the child's user
/// stack and thread pointer, the words to write to user memory and the CPU
/// to interrupt.
pub struct CloneResult {
    pub tid: u32,
    pub cpu: usize,
    pub share_files: bool,
    pub share_fs: bool,
    pub share_sighand: bool,
    pub child_stack: u64,
    pub tls: Option<u64>,
    /// `(address, value)` pairs: the child's tid written at `ctid` and/or `ptid`.
    pub user_writes: Vec<(u64, i32)>,
    pub ipi: Option<usize>,
}

/// The child record that `clone` files, before it is placed on a CPU.
pub open spec fn clone_child(parent: Task, tid: u32, flags: u64, ctid: u64, space: u64, child: Task) -> bool {
    &&& child.with_blocked(0).with_shared_pending(0).with_clear_child_tid(None).spec_fresh(tid,
            if flag_set(flags, CLONE_THREAD) { parent.pid } else { tid },
            if flag_set(flags, CLONE_PARENT) { parent.ppid } else { parent.pid },
            parent.pgid, Some(space), (flags & CSIGNAL) as u8)
    &&& child.blocked == parent.blocked
    &&& child.shared_pending == if flag_set(flags, CLONE_SIGHAND) { parent.shared_pending } else { 0 }
    &&& child.clear_child_tid == if flag_set(flags, CLONE_CHILD_CLEARTID) { Some(ctid as usize) } else { None }
    &&& child.children@ == Seq::<u32>::empty()
}

/// The words `clone` writes to user memory.
pub open spec fn clone_writes(flags: u64, ptid: u64, ctid: u64, tid: u32) -> Seq<(u64, i32)> {
    (if flag_set(flags, CLONE_CHILD_SETTID) { seq![(ctid, tid as i32)] } else { Seq::empty() })
    + (if flag_set(flags, CLONE_PARENT_SETTID) { seq![(ptid, tid as i32)] } else { Seq::empty() })
}

/// `clone` for the calling task. `forked_space` is the address space the
/// memory manager copied for the child (`None`: out of memory); it is used
/// only without `CLONE_VM`. On success the child is filed, added to the
/// parent's children and queued on the next CPU in round-robin order.
pub fn clone(k: &mut Kernel, flags: u64, stack: u64, ptid: u64, ctid: u64, tls: u64,
    forked_space: Option<u64>) -> (r: Result<CloneResult, i32>)
    requires
        old(k).wf(),
        has_current(*old(k)),
        old(k).tasks()@[cur(*old(k))].memory_space is Some,
        !old(k).tasks()@.contains_key(old(k).tasks().next_tid()),
    ensures
        final(k).wf(),
        clone_flags_error(flags, stack) matches Some(e) ==> r == Err::<CloneResult, i32>(e) && *final(k) == *old(k),
        clone_flags_error(flags, stack) is None && !flag_set(flags, CLONE_VM) && forked_space is None ==>
            r == Err::<CloneResult, i32>(ENOMEM)
            && final(k).tasks()@ == old(k).tasks()@
            && final(k).tasks().next_tid() == (old(k).tasks().next_tid() + 1) % 0x1_0000_0000,
        r is Ok <==> clone_flags_error(flags, stack) is None && (flag_set(flags, CLONE_VM) || forked_space is Some),
        r matches Ok(res) ==> ({
            let p = cur(*old(k));
            let parent = old(k).tasks()@[p];
            let tid = old(k).tasks().next_tid();
            let space = if flag_set(flags, CLONE_VM) { parent.memory_space->0 } else { forked_space->0 };
            &&& res.tid == tid
            &&& res.cpu == (old(k).next_cpu() as nat) % old(k).num_cpu()
            &&& res.share_files == flag_set(flags, CLONE_FILES)
            &&& res.share_fs == flag_set(flags, CLONE_FS)
            &&& res.share_sighand == flag_set(flags, CLONE_SIGHAND)
            &&& res.child_stack == stack
            &&& res.tls == if flag_set(flags, CLONE_SETTLS) { Some(tls) } else { None }
            &&& res.user_writes@ == clone_writes(flags, ptid, ctid, tid)
            &&& res.ipi == if res.cpu != old(k).cur_cpu() { Some(res.cpu) } else { None }
            &&& final(k).tasks().next_tid() == (tid + 1) % 0x1_0000_0000
            &&& final(k).tasks()@.dom() == old(k).tasks()@.dom().insert(tid)
            &&& forall|t: u32| t != p && t != tid ==> #[trigger] final(k).tasks()@.get(t) == old(k).tasks()@.get(t)
            &&& final(k).tasks()@[p].children@ == parent.children@.push(tid)
            &&& final(k).tasks()@[p] == Task { children: final(k).tasks()@[p].children, ..parent }
            &&& final(k).tasks()@[tid].on_cpu == Some(res.cpu)
            &&& clone_child(parent, tid, flags, ctid, space, final(k).tasks()@[tid].with_on_cpu(None))
            &&& final(k).queue(res.cpu as int) == old(k).queue(res.cpu as int).push(tid)
            &&& final(k).queues_but(*old(k), res.cpu as int)
        }),
{
    if let Err(e) = check_clone_flags(flags, stack) {
        return Err(e);
    }
    let p = current_task(k);
    let tid = k.allocate_tid();
    let ghost k1 = *k;
    let parent = k.task_manager().get_task(p).unwrap();
    let (c_pid, c_ppid, c_pgid, c_space, c_blocked, c_shared) =
        (parent.pid, parent.ppid, parent.pgid, parent.memory_space.unwrap(), parent.blocked, parent.shared_pending);
    let mut children = parent.children.clone();
    let space = if flags & CLONE_VM != 0 {
        c_space
    } else {
        match forked_space {
            Some(s) => s,
            None => return Err(ENOMEM),
        }
    };
    let pid = if flags & CLONE_THREAD != 0 { c_pid } else { tid };
    let ppid = if flags & CLONE_PARENT != 0 { c_ppid } else { c_pid };
    let exit_signal = (flags & CSIGNAL) as u8;
    let mut child = Task::utask_create(tid, pid, ppid, c_pgid, Task::empty_children(), space, exit_signal);
    child.blocked = c_blocked;
    child.shared_pending = if flags & CLONE_SIGHAND != 0 { c_shared } else { 0 };
    child.clear_child_tid = if flags & CLONE_CHILD_CLEARTID != 0 { Some(ctid as usize) } else { None };
    let mut user_writes: Vec<(u64, i32)> = Vec::new();
    if flags & CLONE_CHILD_SETTID != 0 {
        user_writes.push((ctid, tid as i32));
    }
    if flags & CLONE_PARENT_SETTID != 0 {
        user_writes.push((ptid, tid as i32));
    }
    children.push(tid);
    k.update_task(p, TaskUpdate::Children(children));
    let ghost k2 = *k;
    let cpu = pick_cpu(k);
    let ghost k3 = *k;
    proof {
        k1.lemma_cur_cpu_in_range();
    }
    spawn_task(k, child, cpu);
    let cur_cpu = crate::kernel::cpu_id(k);
    let ipi = if cpu != cur_cpu { Some(cpu) } else { None };
    let tls_out = if flags & CLONE_SETTLS != 0 { Some(tls) } else { None };
    proof {
        assert(user_writes@ == clone_writes(flags, ptid, ctid, tid));
        assert(k.tasks()@.dom() =~= old(k).tasks()@.dom().insert(tid));
        assert forall|d: int| 0 <= d < k.num_cpu() && d != cpu implies #[trigger] k.queue(d) == old(k).queue(d) by {
            assert(k2.queue(d) == old(k).queue(d));
            assert(k3.queue(d) == k2.queue(d));
        }
        assert(k3.queue(cpu as int) == old(k).queue(cpu as int));
    }
    Ok(CloneResult {
        tid,
        cpu,
        share_files: flags & CLONE_FILES != 0,
        share_fs: flags & CLONE_FS != 0,
        share_sighand: flags & CLONE_SIGHAND != 0,
        child_stack: stack,
        tls: tls_out,
        user_writes,
        ipi,
    })
}


/// The words `clone` stores hold the child's tid, each at the address its
/// own flag names: at `ctid` under `CLONE_CHILD_SETTID`, at `ptid` under
/// `CLONE_PARENT_SETTID`, and nowhere else.
pub proof fn law_clone_settid_addresses(flags: u64, ptid: u64, ctid: u64, tid: u32)
    ensures
        ({
            let w = clone_writes(flags, ptid, ctid, tid);
            &&& flags & CLONE_CHILD_SETTID != 0 ==> w.contains((ctid, tid as i32))
            &&& flags & CLONE_PARENT_SETTID != 0 ==> w.contains((ptid, tid as i32))
            &&& w.len() == (if flags & CLONE_CHILD_SETTID != 0 { 1int } else { 0 })
                + (if flags & CLONE_PARENT_SETTID != 0 { 1int } else { 0 })
            &&& forall|i: int| 0 <= i < w.len() ==> (#[trigger] w[i]).1 == tid as i32
                && ((w[i].0 == ctid && flags & CLONE_CHILD_SETTID != 0)
                    || (w[i].0 == ptid && flags & CLONE_PARENT_SETTID != 0))
        }),
{
    let w = clone_writes(flags, ptid, ctid, tid);
    if flags & CLONE_CHILD_SETTID != 0 {
        assert(w[0] == (ctid, tid as i32));
    }
    if flags & CLONE_PARENT_SETTID != 0 {
        let j: int = if flags & CLONE_CHILD_SETTID != 0 { 1 } else { 0 };
        assert(w[j] == (ptid, tid as i32));
    }
}

} // verus!
