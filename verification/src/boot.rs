//! Bringing the boot CPU up: the idle task, the init task and the kernel
//! thread daemon; ending a task that faulted; joining a kernel thread.

use vstd::prelude::*;
use crate::cpu::Cpu;
use crate::errno::FsError;
use crate::fd_table::{FdTable, FdEntry, entry, with_entry};
use crate::file::{BlockDevice, FileKind, FileSystem, FsStruct, FsType, OpenFile, O_RDONLY, O_WRONLY};
use crate::kernel::{Kernel, cur, current_task, has_current, install_idle_task, spawn_task};
use crate::process::{exit_process, INIT_PID};
use crate::task::{Task, TaskState};
use crate::vfs::ROOT_INO;

verus! {

/// What an architecture tells the common boot sequence: its name and what
/// it calls a CPU.
pub struct PrimaryBootOps {
    pub arch_name: Vec<u8>,
    pub cpu_label: Vec<u8>,
}

impl PrimaryBootOps {
    pub fn new(arch_name: Vec<u8>, cpu_label: Vec<u8>) -> (r: Self)
        ensures
            r.arch_name@ == arch_name@,
            r.cpu_label@ == cpu_label@,
    {
        PrimaryBootOps { arch_name, cpu_label }
    }
}

/// The idle task of CPU `cpu_id`: a kernel thread with the next task id,
/// its own process and group, placed on that CPU. The caller installs it.
pub fn create_idle_task(k: &mut Kernel, cpu_id: usize) -> (t: Task)
    requires
        old(k).wf(),
    ensures
        final(k).wf(),
        final(k).tasks()@ == old(k).tasks()@,
        final(k).tasks().next_tid() == (old(k).tasks().next_tid() + 1) % 0x1_0000_0000,
        final(k).same_but_tasks(*old(k)),
        t.with_on_cpu(None).spec_fresh(old(k).tasks().next_tid(), old(k).tasks().next_tid(), 0,
            old(k).tasks().next_tid(), None, 0),
        t.children@ == Seq::<u32>::empty(),
        t.on_cpu == Some(cpu_id),
{
    let tid = k.allocate_tid();
    let mut t = Task::ktask_create(tid, tid, 0, Task::empty_children());
    t.on_cpu = Some(cpu_id);
    t
}

/// The task id `rest_init` gives the init task.
pub const INIT_TID: u32 = 1;

/// The console files of a new process: standard input read-only, standard
/// output and error write-only.
pub open spec fn console_file(flags: u32) -> OpenFile {
    OpenFile { kind: FileKind::CharDevice, ino: ROOT_INO, flags, offset: 0, owner: 0, pipe_size: 0 }
}

fn console(flags: u32) -> (f: OpenFile)
    ensures
        f == console_file(flags),
{
    OpenFile { kind: FileKind::CharDevice, ino: ROOT_INO, flags, offset: 0, owner: 0, pipe_size: 0 }
}

/// Creates the init task (tid 1, its own process, no parent) as a kernel
/// thread that runs in the address space active on this CPU, queues it on
/// CPU 0, and gives it descriptors 0, 1 and 2 on the console and the root
/// directory as working and root directory. A record already filed under
/// tid 1 is replaced.
pub fn rest_init(k: &mut Kernel, fs: &mut FileSystem) -> (r: (FdTable, FsStruct))
    requires
        old(k).wf(),
        old(fs).wf(),
        old(fs).files@.len() + 3 < u64::MAX,
        old(k).cpu(old(k).cur_cpu() as int).current_memory_space is Some,
    ensures
        final(k).wf(),
        final(fs).wf(),
        final(fs).vfs == old(fs).vfs,
        ({
            let n = old(fs).files@.len();
            &&& final(fs).files@ == old(fs).files@.push(console_file(O_RDONLY)).push(console_file(O_WRONLY)).push(console_file(O_WRONLY))
            &&& entry(r.0@, 0) == Some(FdEntry { file: n as u64, cloexec: false })
            &&& entry(r.0@, 1) == Some(FdEntry { file: (n + 1) as u64, cloexec: false })
            &&& entry(r.0@, 2) == Some(FdEntry { file: (n + 2) as u64, cloexec: false })
            &&& forall|fd: int| fd >= 3 ==> #[trigger] entry(r.0@, fd) is None
        }),
        r.1.cwd == Some(ROOT_INO) && r.1.root == Some(ROOT_INO),
        final(k).tasks()@.contains_key(INIT_TID),
        final(k).tasks()@[INIT_TID].with_on_cpu(None).spec_fresh(INIT_TID, INIT_TID, 0, INIT_TID,
            old(k).cpu(old(k).cur_cpu() as int).current_memory_space, 0),
        final(k).tasks()@[INIT_TID].on_cpu == Some(0usize),
        final(k).tasks()@ == old(k).tasks()@.insert(INIT_TID, final(k).tasks()@[INIT_TID]),
        final(k).queue(0) == old(k).queue(0).push(INIT_TID),
        final(k).queues_but(*old(k), 0),
        final(k).cpus_same(*old(k)),
{
    let mut fdt = FdTable::new();
    proof { fs.vfs.lemma_root(); }
    let stdin = fs.add_file(console(O_RDONLY));
    let stdout = fs.add_file(console(O_WRONLY));
    let stderr = fs.add_file(console(O_WRONLY));
    let ghost t0 = fdt@;
    let _ = fdt.install_at(0, stdin);
    let ghost t1 = fdt@;
    let _ = fdt.install_at(1, stdout);
    let ghost t2 = fdt@;
    let _ = fdt.install_at(2, stderr);
    proof {
        crate::fd_table::lemma_with_entry(t0, 0, Some(FdEntry { file: stdin, cloexec: false }));
        crate::fd_table::lemma_with_entry(t1, 1, Some(FdEntry { file: stdout, cloexec: false }));
        crate::fd_table::lemma_with_entry(t2, 2, Some(FdEntry { file: stderr, cloexec: false }));
        assert forall|fd: int| fd >= 3 implies #[trigger] entry(fdt@, fd) is None by {
            assert(entry(t0, fd) is None);
            assert(entry(t1, fd) == entry(t0, fd));
            assert(entry(t2, fd) == entry(t1, fd));
        }
    }
    let fsx = FsStruct::new(Some(ROOT_INO), Some(ROOT_INO));
    let space = crate::syscall::mm::current_memory_space(k);
    let mut task = Task::ktask_create(INIT_TID, INIT_TID, 0, Task::empty_children());
    task.memory_space = Some(space);
    proof {
        k.lemma_cur_cpu_in_range();
    }
    spawn_task(k, task, 0);
    (fdt, fsx)
}

/// The common boot sequence of the boot CPU, on a machine with `num_cpu`
/// CPUs: the kernel address space becomes active, the idle task of CPU 0
/// is created and the CPU switches to it, and `rest_init` queues the init
/// task. Returns the machine, the file system with the console files, and
/// the init task's descriptors and directories.
pub fn run_primary_boot(ops: &PrimaryBootOps, num_cpu: usize, kernel_space: u64, root_fs: FsType,
    devices: Vec<BlockDevice>) -> (r: (Kernel, FileSystem, FdTable, FsStruct))
    requires
        num_cpu > 0,
    ensures
        r.0.wf(),
        r.1.wf(),
        r.0.num_cpu() == num_cpu,
        r.0.cur_cpu() == 0,
        r.0.cpu(0).idle_task == Some(1u32),
        r.0.cpu(0).current_task == Some(1u32),
        r.0.cpu(0).current_memory_space == Some(kernel_space),
        r.0.tasks()@.dom() == set![1u32],
        r.0.tasks()@[1].with_on_cpu(None).spec_fresh(1, 1, 0, 1, Some(kernel_space), 0),
        r.0.queue(0) == seq![1u32],
        r.0.tasks().next_tid() == 2,
        r.1.files@.len() == 3,
        forall|fd: int| fd >= 3 ==> #[trigger] entry(r.2@, fd) is None,
{
    let mut k = Kernel::new(num_cpu);
    k.switch_current_space(kernel_space);
    let idle = create_idle_task(&mut k, 0);
    install_idle_task(&mut k, idle);
    let mut fs = FileSystem::new(root_fs, devices);
    let (fdt, fsx) = rest_init(&mut k, &mut fs);
    proof {
        assert(k.tasks()@.dom() =~= set![1u32]);
        assert(k.queue(0) =~= seq![1u32]);
    }
    (k, fs, fdt, fsx)
}

/// Creates the kernel thread daemon: the next task id, its own process and
/// group, no parent, a copy of the caller's descriptor table, queued on
/// CPU 0. Returns its tid and its table.
pub fn create_kthreadd(k: &mut Kernel, parent_fdt: &FdTable) -> (r: (u32, FdTable))
    requires
        old(k).wf(),
        old(k).num_cpu() > 0,
        parent_fdt.wf(),
    ensures
        final(k).wf(),
        r.0 == old(k).tasks().next_tid(),
        r.1@ == parent_fdt@,
        final(k).tasks().next_tid() == (old(k).tasks().next_tid() + 1) % 0x1_0000_0000,
        final(k).tasks()@.contains_key(r.0),
        final(k).tasks()@[r.0].with_on_cpu(None).spec_fresh(r.0, r.0, 0, r.0, None, 0),
        final(k).tasks()@[r.0].on_cpu == Some(0usize),
        final(k).tasks()@ == old(k).tasks()@.insert(r.0, final(k).tasks()@[r.0]),
        final(k).queue(0) == old(k).queue(0).push(r.0),
        final(k).queues_but(*old(k), 0),
{
    let tid = k.allocate_tid();
    let table = parent_fdt.clone_table();
    let task = Task::ktask_create(tid, tid, 0, Task::empty_children());
    proof {
        k.lemma_cur_cpu_in_range();
    }
    let ghost k1 = *k;
    spawn_task(k, task, 0);
    proof {
        assert forall|d: int| 0 <= d < k.num_cpu() && d != 0 implies #[trigger] k.queue(d) == old(k).queue(d) by {
            assert(k1.queue(d) == old(k).queue(d));
        }
        assert(k1.queue(0) == old(k).queue(0));
    }
    (tid, table)
}

/// Which process `terminate_task` ended.
#[derive(Clone, Copy, Debug, PartialEq, Eq, Structural)]
pub enum Terminated {
    /// The whole process with this pid: its resources are to be released.
    Process(u32),
    /// Only this thread: its process leader is gone or is no process.
    Thread(u32),
}

/// Ends the calling task after a fatal fault, as Linux does: its whole
/// process (its own, or the one its leader heads) exits with `code`;
/// without a leader that is a process only the thread exits. The caller
/// then releases the process's resources and schedules.
pub fn terminate_task(k: &mut Kernel, code: i32) -> (r: Terminated)
    requires
        old(k).wf(),
        has_current(*old(k)),
        old(k).tasks()@.contains_key(INIT_PID),
    ensures
        final(k).wf(),
        final(k).tasks()@.dom() == old(k).tasks()@.dom(),
        ({
            let me = cur(*old(k));
            let pid = old(k).tasks()@[me].pid;
            match r {
                Terminated::Process(p) => {
                    &&& p == (if pid == me { me } else { pid })
                    &&& old(k).tasks()@.contains_key(p) && old(k).tasks()@[p].pid == p
                    &&& final(k).tasks()@[p].state == TaskState::Zombie
                    &&& final(k).tasks()@[p].exit_code == Some(code)
                },
                Terminated::Thread(t) => {
                    &&& t == me
                    &&& pid != me
                    &&& !(old(k).tasks()@.contains_key(pid) && old(k).tasks()@[pid].pid == pid)
                    &&& final(k).tasks()@ == old(k).tasks()@.insert(me, old(k).tasks()@[me].with_exit(code))
                },
            }
        }),
{
    let me = current_task(k);
    proof { k.lemma_task_tid(me); }
    let pid = k.task_manager().get_task(me).unwrap().pid;
    if pid == me {
        exit_process(k, me, code);
        return Terminated::Process(me);
    }
    let leader_is_process = match k.task_manager().get_task(pid) {
        Some(l) => l.pid == pid,
        None => false,
    };
    if leader_is_process {
        proof { k.lemma_task_tid(pid); }
        exit_process(k, pid, code);
        Terminated::Process(pid)
    } else {
        k.set_exit_code(me, code);
        Terminated::Thread(me)
    }
}

/// What one look of `kthread_join` found.
#[derive(Clone, Copy, Debug, PartialEq, Eq, Structural)]
pub enum Join {
    /// No such task: the join fails with -1.
    Missing,
    /// The thread has exited with this code (if it set one); its record is
    /// released (when nothing runs it any more) and the join returns 0.
    Done(Option<i32>),
    /// Still running: look again.
    Busy,
}

/// One look of `kthread_join` at task `tid`.
pub fn kthread_join(k: &mut Kernel, tid: u32) -> (r: Join)
    requires
        old(k).wf(),
    ensures
        final(k).wf(),
        !old(k).tasks()@.contains_key(tid) ==> r == Join::Missing && *final(k) == *old(k),
        old(k).tasks()@.contains_key(tid) && old(k).tasks()@[tid].state != TaskState::Zombie ==> r == Join::Busy && *final(k) == *old(k),
        old(k).tasks()@.contains_key(tid) && old(k).tasks()@[tid].state == TaskState::Zombie ==>
            r == Join::Done(old(k).tasks()@[tid].exit_code)
            && (final(k).tasks()@ == old(k).tasks()@.remove(tid) || final(k).tasks()@ == old(k).tasks()@),
{
    let (state, code) = match k.task_manager().get_task(tid) {
        None => return Join::Missing,
        Some(t) => (t.state, t.exit_code),
    };
    if state != TaskState::Zombie {
        return Join::Busy;
    }
    let _ = k.release_task(tid);
    Join::Done(code)
}

} // verus!
