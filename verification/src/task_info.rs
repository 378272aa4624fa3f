//! The scheduling record of a task: the fields the scheduler reads and
//! changes most often, apart from the saved register context.

use vstd::prelude::*;

verus! {

/// Run state as the scheduler records it.
#[derive(Clone, Copy, Debug, PartialEq, Eq, Structural)]
pub enum TaskState {
    /// Running, or ready to be scheduled.
    Running,
    /// Stopped; it does not run.
    Stopped,
    /// Waiting for an event; a signal can wake it.
    Interruptable,
    /// Waiting for an event that only that event ends.
    Uninterruptable,
}

/// Scheduling information of one task.
#[derive(Clone, Copy, Debug)]
pub struct TaskInfo {
    /// How many times preemption has been turned off; the task cannot be
    /// preempted while this is above 0.
    pub preempt_count: usize,
    /// Priority; a smaller value is a higher priority.
    pub priority: u8,
    /// The processor the task is on.
    pub processor_id: usize,
    pub state: TaskState,
    pub tid: usize,
    /// The process the task belongs to: the tid of its group leader.
    pub pid: usize,
}

} // verus!
