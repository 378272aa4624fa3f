use comix_kernel::cap::{Capabilities, CapabilitySet, capability_from_u32, CAP_ALL_BITS, CAP_KILL};
use comix_kernel::task::{Task, TaskManager, TaskState, TidAllocator, signal_flag};
use comix_kernel::task_queue::TaskQueue;
use comix_kernel::fd_table::FdTable;
use comix_kernel::errno::FsError;

#[test]
fn tid_allocator_counts_up_from_one() {
    let mut a = TidAllocator::new();
    assert_eq!(a.allocate(), 1);
    assert_eq!(a.allocate(), 2);
    assert_eq!(a.allocate(), 3);
}

#[test]
fn task_queue_is_first_in_first_out() {
    let mut q = TaskQueue::new();
    q.add_task(5);
    q.add_task(7);
    q.add_task(9);
    assert_eq!(q.len(), 3);
    assert_eq!(q.pop_task(), Some(5));
    assert_eq!(q.pop_task(), Some(7));
    assert_eq!(q.pop_task(), Some(9));
    assert_eq!(q.pop_task(), None);
    assert!(q.is_empty());
}

#[test]
fn task_queue_remove_keeps_order() {
    let mut q = TaskQueue::from_vec(vec![1, 2, 3, 2, 4]);
    q.remove_task(2);
    assert_eq!(q.into_vec(), vec![1, 3, 4]);
}

#[test]
fn task_manager_files_and_releases_tasks() {
    let mut m = TaskManager::new();
    let tid = m.allocate_tid();
    assert_eq!(tid, 1);
    m.add_task(Task::ktask_create(tid, tid, 0, Task::empty_children()));
    assert!(m.contains(tid));
    assert_eq!(m.get_task(tid).unwrap().state, TaskState::Running);
    m.exit_task(tid, 3);
    let t = m.get_task(tid).unwrap();
    assert_eq!(t.state, TaskState::Zombie);
    assert_eq!(t.exit_code, Some(3));
    m.release_task(tid);
    assert!(!m.contains(tid));
    assert_eq!(m.task_count(), 0);
}

#[test]
fn pids_snapshot_is_sorted() {
    let mut m = TaskManager::new();
    for tid in [4u32, 2, 9] {
        m.add_task(Task::ktask_create(tid, tid, 0, Task::empty_children()));
    }
    m.add_task(Task::ktask_create(5, 4, 0, Task::empty_children()));
    assert_eq!(m.list_process_pids_snapshot(), vec![2, 4, 9]);
    let mut th = m.get_process_threads(4);
    th.sort();
    assert_eq!(th, vec![4, 5]);
}

#[test]
fn kernel_thread_has_no_address_space() {
    let t = Task::ktask_create(3, 3, 1, Task::empty_children());
    assert!(t.is_kernel_thread());
    assert!(t.is_process());
    let th = Task::ktask_create(4, 3, 1, Task::empty_children());
    assert!(!th.is_process());
}

#[test]
fn signal_flags_are_bits_below_the_number() {
    assert_eq!(signal_flag(1), Some(1));
    assert_eq!(signal_flag(9), Some(1 << 8));
    assert_eq!(signal_flag(64), Some(1u64 << 63));
    assert_eq!(signal_flag(0), None);
    assert_eq!(signal_flag(65), None);
}

#[test]
fn capabilities_truncate_unknown_bits() {
    let c = Capabilities::from_bits_truncate(u64::MAX);
    assert_eq!(c.bits, CAP_ALL_BITS);
    assert!(Capabilities::full().contains(Capabilities::empty_set()));
    assert!(!Capabilities::empty_set().contains(Capabilities::full()));
}

#[test]
fn capability_set_add_then_remove() {
    let mut s = CapabilitySet::empty();
    let kill = capability_from_u32(CAP_KILL).unwrap();
    assert!(!s.has(kill));
    s.add(kill);
    assert!(s.has(kill));
    s.remove(kill);
    assert!(!s.has(kill));
    assert!(capability_from_u32(41).is_none());
}

#[test]
fn fd_table_gives_lowest_free_descriptor() {
    let mut t = FdTable::new();
    assert_eq!(t.alloc_fd(10), Ok(0));
    assert_eq!(t.alloc_fd(11), Ok(1));
    assert_eq!(t.alloc_fd(12), Ok(2));
    assert!(t.close(1).is_ok());
    assert_eq!(t.alloc_fd(13), Ok(1));
    assert_eq!(t.get(1).unwrap().file, 13);
    assert_eq!(t.get(7).err(), Some(FsError::BadFileDescriptor));
}

#[test]
fn fd_table_dup_and_close_on_exec() {
    let mut t = FdTable::new();
    t.alloc_fd(10).unwrap();
    assert_eq!(t.dup3(0, 5, true), Ok(5));
    assert_eq!(t.get(5).unwrap().file, 10);
    assert_eq!(t.get_fd_flags(5), Ok(1));
    t.close_exec();
    assert!(t.get(5).is_err());
    assert!(t.get(0).is_ok());
    let closed = t.take_all();
    assert_eq!(closed, vec![(0, 10)]);
    assert!(t.get(0).is_err());
}
