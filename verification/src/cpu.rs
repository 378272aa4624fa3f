//! Per-CPU state: the running task, the active address space, the idle task.

use vstd::prelude::*;
use crate::task::Task;

verus! {

/// What one CPU is running.
pub struct Cpu {
    pub cpu_id: usize,
    /// The task running on this CPU.
    pub current_task: Option<u32>,
    /// The address space whose page table is active; a kernel thread keeps
    /// the one of the task before it.
    pub current_memory_space: Option<u64>,
    /// The task that runs when nothing else can; it is never queued.
    pub idle_task: Option<u32>,
}

impl Cpu {
    /// The state of `self` after it starts running `task`.
    pub open spec fn switched_to(self, task: Task) -> Cpu {
        Cpu {
            current_task: Some(task.tid),
            current_memory_space: if task.memory_space is None {
                self.current_memory_space
            } else {
                task.memory_space
            },
            ..self
        }
    }

    /// CPU 0 with nothing running.
    pub fn new() -> (c: Self)
        ensures
            c.cpu_id == 0,
            c.current_task is None,
            c.current_memory_space is None,
            c.idle_task is None,
    {
        Cpu { cpu_id: 0, current_task: None, current_memory_space: None, idle_task: None }
    }

    /// CPU `cpu_id` with nothing running.
    pub fn new_with_id(cpu_id: usize) -> (c: Self)
        ensures
            c.cpu_id == cpu_id,
            c.current_task is None,
            c.current_memory_space is None,
            c.idle_task is None,
    {
        Cpu { cpu_id, current_task: None, current_memory_space: None, idle_task: None }
    }

    /// Makes `task` the running task and, for a user task, activates its
    /// address space.
    pub fn switch_task(&mut self, task: &Task)
        ensures
            *final(self) == old(self).switched_to(*task),
    {
        self.current_task = Some(task.tid);
        if !task.is_kernel_thread() {
            self.current_memory_space = task.memory_space;
        }
    }

    /// Activates address space `space`.
    pub fn switch_space(&mut self, space: u64)
        ensures
            *final(self) == (Cpu { current_memory_space: Some(space), ..*old(self) }),
    {
        self.current_memory_space = Some(space);
    }
}

} // verus!
