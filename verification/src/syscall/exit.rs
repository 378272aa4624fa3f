//! `exit`, `exit_group`, and what a process gives back when it ends.

use vstd::prelude::*;
use std::collections::BTreeMap;
use crate::kernel::{Kernel, cur, current_task, has_current};
use crate::task::{TaskUpdate, TaskState};
use crate::fd_table::{FdTable, entry};
use crate::shm::{ShmRegistry, ShmAttachment, detach_all_shm, detach_fold};
use crate::futex::{FutexManager, futex_wake_all, futex_queues};
use crate::process::{exit_process, exit_one, task_group_leader, INIT_PID, THREAD_GROUP_EXIT_CODE};
use crate::syscall::futex::futex_waiters_known;
use crate::wait_queue::waiters_known;

verus! {

/// The address space of the kernel, which a CPU runs on once a process
/// has given its own back.
pub const KERNEL_SPACE: u64 = 0;

/// What the process `tid` gives back when it ends, if it is a process
/// (a thread gives back nothing): the CPU switches to the kernel's address
/// space, every descriptor is closed (the closed ones are returned, lowest
/// first), every shared memory attachment is dropped (the caller unmaps
/// them), and the task loses its address space.
pub fn cleanup_process_resources_on_exit(k: &mut Kernel, fdt: &mut FdTable, reg: &mut ShmRegistry,
    atts: &mut BTreeMap<usize, ShmAttachment>, tid: u32) -> (r: (Vec<(usize, u64)>, Vec<ShmAttachment>))
    requires
        old(k).wf(),
        old(fdt).wf(),
        old(reg).wf(),
        old(k).tasks()@.contains_key(tid),
    ensures
        final(k).wf(),
        final(fdt).wf(),
        final(reg).wf(),
        final(k).tasks()@.dom() == old(k).tasks()@.dom(),
        old(k).tasks()@[tid].pid != tid ==> *final(k) == *old(k) && final(fdt)@ == old(fdt)@
            && final(atts)@ == old(atts)@ && final(reg)@ == old(reg)@ && r.0@.len() == 0 && r.1@.len() == 0,
        old(k).tasks()@[tid].pid == tid ==> {
            &&& final(k).tasks()@ == old(k).tasks()@.insert(tid, old(k).tasks()@[tid].updated(TaskUpdate::MemorySpace(None)))
            &&& final(k).cpu(old(k).cur_cpu() as int).current_memory_space == Some(KERNEL_SPACE)
            &&& forall|fd: int| #[trigger] entry(final(fdt)@, fd) is None
            &&& forall|i: int| 0 <= i < r.0@.len() ==> (entry(old(fdt)@, (#[trigger] r.0@[i]).0 as int) matches Some(e) && e.file == r.0@[i].1)
            &&& final(atts)@ == Map::<usize, ShmAttachment>::empty()
            &&& forall|a: usize| old(atts)@.contains_key(a) ==> r.1@.contains(old(atts)@[a])
            &&& forall|fd: int| 0 <= fd ==> (#[trigger] entry(old(fdt)@, fd) is Some
                <==> exists|i: int| 0 <= i < r.0@.len() && r.0@[i].0 == fd)
            &&& r.1@.len() == old(atts)@.dom().len()
            &&& final(reg)@ == detach_fold(old(reg)@, r.1@, tid as i32)
        },
{
    proof { k.lemma_task_tid(tid); }
    let is_process = k.task_manager().get_task(tid).unwrap().is_process();
    if !is_process {
        return (Vec::new(), Vec::new());
    }
    k.switch_current_space(KERNEL_SPACE);
    let closed = fdt.take_all();
    let pid = tid as i32;
    let detached = detach_all_shm(reg, atts, pid);
    let ghost k1 = *k;
    k.update_task(tid, TaskUpdate::MemorySpace(None));
    proof {
        k1.lemma_cur_cpu_in_range();
        assert(k.cpu(k1.cur_cpu() as int) == k1.cpu(k1.cur_cpu() as int));
    }
    (closed, detached)
}

/// `cleanup_process_resources_on_exit` for the task running on this CPU.
pub fn cleanup_current_process_resources_on_exit(k: &mut Kernel, fdt: &mut FdTable, reg: &mut ShmRegistry,
    atts: &mut BTreeMap<usize, ShmAttachment>) -> (r: (Vec<(usize, u64)>, Vec<ShmAttachment>))
    requires
        old(k).wf(),
        old(fdt).wf(),
        old(reg).wf(),
        has_current(*old(k)),
    ensures
        final(k).wf(),
        final(fdt).wf(),
        final(reg).wf(),
        final(k).tasks()@.dom() == old(k).tasks()@.dom(),
        ({
            let tid = cur(*old(k));
            &&& old(k).tasks()@[tid].pid != tid ==> *final(k) == *old(k) && final(fdt)@ == old(fdt)@
                && final(atts)@ == old(atts)@ && final(reg)@ == old(reg)@ && r.0@.len() == 0 && r.1@.len() == 0
            &&& old(k).tasks()@[tid].pid == tid ==> {
                &&& final(k).tasks()@ == old(k).tasks()@.insert(tid, old(k).tasks()@[tid].updated(TaskUpdate::MemorySpace(None)))
                &&& final(k).cpu(old(k).cur_cpu() as int).current_memory_space == Some(KERNEL_SPACE)
                &&& forall|fd: int| #[trigger] entry(final(fdt)@, fd) is None
                &&& forall|i: int| 0 <= i < r.0@.len() ==> (entry(old(fdt)@, (#[trigger] r.0@[i]).0 as int) matches Some(e) && e.file == r.0@[i].1)
                &&& final(atts)@ == Map::<usize, ShmAttachment>::empty()
                &&& forall|a: usize| old(atts)@.contains_key(a) ==> r.1@.contains(old(atts)@[a])
                &&& forall|fd: int| 0 <= fd ==> (#[trigger] entry(old(fdt)@, fd) is Some
                    <==> exists|i: int| 0 <= i < r.0@.len() && r.0@[i].0 == fd)
                &&& r.1@.len() == old(atts)@.dom().len()
                &&& final(reg)@ == detach_fold(old(reg)@, r.1@, tid as i32)
            }
        }),
{
    let tid = current_task(k);
    proof { k.lemma_task_tid(tid); }
    cleanup_process_resources_on_exit(k, fdt, reg, atts, tid)
}

/// The first step of exiting: the thread-id address registered with
/// `set_tid_address` is forgotten; when there was one (and the task still
/// has an address space) the caller wrote 0 there, and `paddr` is where it
/// is: the tasks waiting on that futex are woken.
pub fn clear_child_tid_and_wake(k: &mut Kernel, fm: &mut FutexManager, tid: u32, paddr: Option<usize>)
    requires
        old(k).wf(),
        old(k).tasks()@.contains_key(tid),
        futex_waiters_known(*old(fm), *old(k)),
    ensures
        final(k).wf(),
        futex_waiters_known(*final(fm), *final(k)),
        final(k).tasks()@.dom() == old(k).tasks()@.dom(),
        final(k).tasks()@[tid].clear_child_tid is None,
        forall|t: u32| #[trigger] final(k).tasks()@.contains_key(t) ==> final(k).tasks()@[t].pid == old(k).tasks()@[t].pid,
        ({
            let t = old(k).tasks()@[tid];
            if t.clear_child_tid is Some && t.memory_space is Some && paddr is Some {
                futex_queues(*final(fm)) == futex_queues(*old(fm)).insert(paddr->Some_0, Seq::empty())
            } else {
                *final(fm) == *old(fm)
            }
        }),
{
    let t = k.task_manager().get_task(tid).unwrap();
    let had = t.clear_child_tid.is_some();
    let has_space = t.memory_space.is_some();
    if had && has_space {
        if let Some(p) = paddr {
            proof {
                if futex_queues(*fm).contains_key(p) {
                    assert(waiters_known(futex_queues(*fm)[p], *k));
                }
            }
            futex_wake_all(k, fm, p);
            proof {
                assert forall|x: u32| #[trigger] k.tasks()@.contains_key(x) implies k.tasks()@[x].pid == old(k).tasks()@[x].pid by {
                    assert(crate::wait_queue::only_sched_changed(old(k).tasks()@[x], k.tasks()@[x]));
                }
                lemma_known_same_dom(*old(fm), *old(k), *k);
                assert forall|a: usize| #[trigger] futex_queues(*fm).contains_key(a) implies waiters_known(futex_queues(*fm)[a], *k) by {
                    if a != p {
                        assert(futex_queues(*old(fm)).contains_key(a));
                    }
                }
            }
        }
    }
    let ghost k1 = *k;
    k.update_task(tid, TaskUpdate::ClearChildTid(None));
    proof {
        assert(k.tasks()@.dom() =~= k1.tasks()@.dom());
        lemma_known_same_dom(*fm, k1, *k);
    }
}

proof fn lemma_known_same_dom(fm: FutexManager, k1: Kernel, k2: Kernel)
    requires
        futex_waiters_known(fm, k1),
        k2.tasks()@.dom() == k1.tasks()@.dom(),
    ensures
        futex_waiters_known(fm, k2),
{
    assert forall|a: usize| #[trigger] futex_queues(fm).contains_key(a) implies waiters_known(futex_queues(fm)[a], k2) by {
        assert(waiters_known(futex_queues(fm)[a], k1));
        assert forall|t: u32| #[trigger] futex_queues(fm)[a].contains(t) implies k2.tasks()@.contains_key(t) by {
            assert(k1.tasks()@.contains_key(t));
        }
    }
}

/// `exit`: the calling thread ends with status `code & 0xFF`. A process
/// (thread-group leader) gives back its resources first and then exits as
/// a whole; another thread only becomes a zombie. The caller schedules away.
pub fn exit(k: &mut Kernel, fm: &mut FutexManager, fdt: &mut FdTable, reg: &mut ShmRegistry,
    atts: &mut BTreeMap<usize, ShmAttachment>, tid: u32, code: i32, clear_paddr: Option<usize>)
    -> (closed: (Vec<(usize, u64)>, Vec<ShmAttachment>))
    requires
        old(k).wf(),
        old(fdt).wf(),
        old(reg).wf(),
        old(k).tasks()@.contains_key(tid),
        old(k).tasks()@.contains_key(INIT_PID),
        futex_waiters_known(*old(fm), *old(k)),
    ensures
        final(k).wf(),
        final(k).tasks()@.dom() == old(k).tasks()@.dom(),
        final(k).tasks()@[tid].state == TaskState::Zombie,
        final(k).tasks()@[tid].exit_code == Some(code & 0xff),
        old(k).tasks()@[tid].pid == tid ==> forall|t: u32| #[trigger] old(k).tasks()@.contains_key(t) && t != tid
            && old(k).tasks()@[t].pid == tid ==> final(k).tasks()@[t].state == TaskState::Zombie
            && final(k).tasks()@[t].exit_code == Some(THREAD_GROUP_EXIT_CODE),
{
    clear_child_tid_and_wake(k, fm, tid, clear_paddr);
    let ghost k1 = *k;
    let closed = cleanup_process_resources_on_exit(k, fdt, reg, atts, tid);
    let ghost k2 = *k;
    proof {
        k.lemma_task_tid(tid);
        assert forall|t: u32| #[trigger] old(k).tasks()@.contains_key(t) implies k2.tasks()@.contains_key(t)
            && k2.tasks()@[t].pid == old(k).tasks()@[t].pid by {
            assert(k1.tasks()@.contains_key(t));
        }
    }
    let is_process = k.task_manager().get_task(tid).unwrap().is_process();
    if is_process {
        exit_process(k, tid, code & 0xff);
    } else {
        exit_one(k, tid, code & 0xff);
    }
    closed
}

/// `exit_group`: the whole thread group ends with status `code & 0xFF`:
/// its leader gives back the process's resources and exits, which makes
/// every other thread a zombie. The caller schedules away.
pub fn exit_group(k: &mut Kernel, fm: &mut FutexManager, fdt: &mut FdTable, reg: &mut ShmRegistry,
    atts: &mut BTreeMap<usize, ShmAttachment>, tid: u32, code: i32, clear_paddr: Option<usize>)
    -> (closed: (Vec<(usize, u64)>, Vec<ShmAttachment>))
    requires
        old(k).wf(),
        old(fdt).wf(),
        old(reg).wf(),
        old(k).tasks()@.contains_key(tid),
        old(k).tasks()@.contains_key(INIT_PID),
        futex_waiters_known(*old(fm), *old(k)),
    ensures
        final(k).wf(),
        final(k).tasks()@.dom() == old(k).tasks()@.dom(),
        ({
            let p = old(k).tasks()@[tid].pid;
            let leader = if old(k).tasks()@.contains_key(p) { p } else { tid };
            &&& final(k).tasks()@[leader].state == TaskState::Zombie
            &&& final(k).tasks()@[leader].exit_code == Some(code & 0xff)
        }),
{
    clear_child_tid_and_wake(k, fm, tid, clear_paddr);
    let leader = match task_group_leader(k, tid) {
        Some(l) => l,
        None => tid,
    };
    let closed = cleanup_process_resources_on_exit(k, fdt, reg, atts, leader);
    proof { k.lemma_task_tid(leader); }
    let is_process = k.task_manager().get_task(leader).unwrap().is_process();
    if is_process {
        exit_process(k, leader, code & 0xff);
    } else {
        exit_one(k, leader, code & 0xff);
    }
    closed
}

} // verus!
