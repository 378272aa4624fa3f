//! The scheduler interface and the round-robin scheduler.

use vstd::prelude::*;
use crate::cpu::Cpu;
use crate::task::{Task, TaskManager, TaskState};
use crate::task_queue::{TaskQueue, other_than};

verus! {

/// Time slice length, in timer ticks.
pub const DEFAULT_TIME_SLICE: usize = 1;

/// The state a task sleeps in: interruptible when signals may wake it.
pub open spec fn sleep_state(receive_signal: bool) -> TaskState {
    if receive_signal {
        TaskState::Interruptible
    } else {
        TaskState::Uninterruptible
    }
}

/// Whether `new` is `old` with only the state of `tid` replaced by `state`.
pub open spec fn only_state_changed(old: TaskManager, new: TaskManager, tid: u32, state: TaskState) -> bool {
    &&& new.wf()
    &&& new.next_tid() == old.next_tid()
    &&& new@ == old@.insert(tid, old@[tid].with_state(state))
}

/// Decides which task runs next and keeps the run queue.
pub trait Scheduler: Sized {
    /// The queued tids, front first.
    spec fn queue(&self) -> Seq<u32>;

    fn new() -> (s: Self)
        ensures
            s.queue() == Seq::<u32>::empty();

    /// Queues a running task.
    fn add_task(&mut self, tasks: &TaskManager, task: u32)
        requires
            tasks@.contains_key(task),
            tasks@[task].state == TaskState::Running,
        ensures
            final(self).queue() == old(self).queue().push(task);

    /// Puts `task` to sleep and takes it off the run queue.
    fn sleep_task(&mut self, tasks: &mut TaskManager, task: u32, receive_signal: bool)
        requires
            old(tasks).wf(),
            old(tasks)@.contains_key(task),
        ensures
            only_state_changed(*old(tasks), *final(tasks), task, sleep_state(receive_signal)),
            final(self).queue() == old(self).queue().filter(other_than(task));

    /// Makes `task` runnable and queues it unless it is queued already.
    fn wake_up(&mut self, tasks: &mut TaskManager, task: u32)
        requires
            old(tasks).wf(),
            old(tasks)@.contains_key(task),
        ensures
            only_state_changed(*old(tasks), *final(tasks), task, TaskState::Running),
            final(self).queue() == if old(self).queue().contains(task) {
                old(self).queue()
            } else {
                old(self).queue().push(task)
            };

    /// Marks `task` a zombie and takes it off the run queue.
    fn exit_task(&mut self, tasks: &mut TaskManager, task: u32)
        requires
            old(tasks).wf(),
            old(tasks)@.contains_key(task),
        ensures
            only_state_changed(*old(tasks), *final(tasks), task, TaskState::Zombie),
            final(self).queue() == old(self).queue().filter(other_than(task));

    /// Puts `task` to sleep unless `condition_met`, the outcome of the
    /// caller's check made under the scheduler lock; says whether it slept.
    fn sleep_task_prepare(&mut self, tasks: &mut TaskManager, task: u32, receive_signal: bool,
        condition_met: bool) -> (slept: bool)
        requires
            old(tasks).wf(),
            old(tasks)@.contains_key(task),
        ensures
            slept == !condition_met,
            slept ==> only_state_changed(*old(tasks), *final(tasks), task, sleep_state(receive_signal)),
            slept ==> final(self).queue() == old(self).queue().filter(other_than(task)),
            !slept ==> *final(tasks) == *old(tasks) && final(self).queue() == old(self).queue();
}

/// The two tasks whose contexts a switch exchanges.
pub struct SwitchPlan {
    pub old: u32,
    pub new: u32,
}

/// A round-robin scheduler with one run queue.
pub struct RRScheduler {
    run_queue: TaskQueue,
    time_slice: usize,
    current_slice: usize,
}

impl RRScheduler {
    pub closed spec fn time_slice(&self) -> usize {
        self.time_slice
    }

    pub closed spec fn current_slice(&self) -> usize {
        self.current_slice
    }

    /// Same queue and same time slices.
    pub open spec fn unchanged_from(self, other: RRScheduler) -> bool {
        &&& self.queue() == other.queue()
        &&& self.time_slice() == other.time_slice()
        &&& self.current_slice() == other.current_slice()
    }

    /// An empty scheduler with a full default time slice.
    pub fn empty() -> (s: Self)
        ensures
            s.queue() == Seq::<u32>::empty(),
            s.time_slice() == DEFAULT_TIME_SLICE,
            s.current_slice() == DEFAULT_TIME_SLICE,
    {
        RRScheduler {
            run_queue: TaskQueue::empty(),
            time_slice: DEFAULT_TIME_SLICE,
            current_slice: DEFAULT_TIME_SLICE,
        }
    }

    /// The number of queued tasks.
    pub fn task_count(&self) -> (n: usize)
        ensures
            n == self.queue().len(),
    {
        self.run_queue.len()
    }

    /// Whether the run queue is empty.
    pub fn is_empty(&self) -> (r: bool)
        ensures
            r == (self.queue().len() == 0),
    {
        self.run_queue.is_empty()
    }

    /// Whether `task` is queued.
    pub fn contains(&self, task: u32) -> (r: bool)
        ensures
            r == self.queue().contains(task),
    {
        self.run_queue.contains(task)
    }

    /// Counts one timer tick against the current slice; when the slice runs
    /// out, says so and starts a fresh slice.
    pub fn update_time_slice(&mut self) -> (expired: bool)
        ensures
            expired == (old(self).current_slice() <= 1),
            final(self).current_slice() == if expired {
                old(self).time_slice()
            } else {
                (old(self).current_slice() - 1) as usize
            },
            final(self).time_slice() == old(self).time_slice(),
            final(self).queue() == old(self).queue(),
    {
        if self.current_slice > 0 {
            self.current_slice = self.current_slice - 1;
        }
        if self.current_slice == 0 {
            self.reset_time_slice();
            true
        } else {
            false
        }
    }

    /// Starts a fresh time slice.
    pub fn reset_time_slice(&mut self)
        ensures
            final(self).current_slice() == old(self).time_slice(),
            final(self).time_slice() == old(self).time_slice(),
            final(self).queue() == old(self).queue(),
    {
        self.current_slice = self.time_slice;
    }

    /// Picks the next task for `cpu` and switches `cpu` to it. The front of
    /// the run queue runs next, and the task it replaces goes to the back if
    /// it is still running; with nothing queued, the current task keeps the
    /// CPU if it is running, and otherwise the idle task takes over.
    pub fn next_task(&mut self, cpu: &mut Cpu, tasks: &mut TaskManager) -> (plan: Option<SwitchPlan>)
        requires
            old(tasks).wf(),
            old(cpu).current_task is Some,
            old(tasks)@.contains_key(old(cpu).current_task->0),
            old(self).queue().len() > 0 ==> old(tasks)@.contains_key(old(self).queue()[0]),
            old(self).queue().len() == 0 && old(tasks)@[old(cpu).current_task->0].state
                != TaskState::Running ==> old(cpu).idle_task is Some && old(tasks)@.contains_key(
                old(cpu).idle_task->0,
            ),
        ensures
            final(tasks).wf(),
            final(tasks).next_tid() == old(tasks).next_tid(),
            ({
                let prev = old(cpu).current_task->0;
                let prev_running = old(tasks)@[prev].state == TaskState::Running;
                if old(self).queue().len() == 0 {
                    if prev_running {
                        &&& plan is None
                        &&& *final(cpu) == *old(cpu)
                        &&& *final(tasks) == *old(tasks)
                        &&& final(self).unchanged_from(*old(self))
                    } else {
                        let idle = old(cpu).idle_task->0;
                        &&& plan == Some(SwitchPlan { old: prev, new: idle })
                        &&& *final(cpu) == old(cpu).switched_to(old(tasks)@[idle])
                        &&& *final(tasks) == *old(tasks)
                        &&& final(self).unchanged_from(*old(self))
                    }
                } else {
                    let next = old(self).queue()[0];
                    &&& plan == Some(SwitchPlan { old: prev, new: next })
                    &&& *final(cpu) == old(cpu).switched_to(old(tasks)@[next])
                    &&& final(tasks)@ == old(tasks)@.insert(
                        next,
                        old(tasks)@[next].with_on_cpu(Some(old(cpu).cpu_id)),
                    )
                    &&& final(self).queue() == if prev_running {
                        old(self).queue().drop_first().push(prev)
                    } else {
                        old(self).queue().drop_first()
                    }
                    &&& final(self).current_slice() == old(self).time_slice()
                    &&& final(self).time_slice() == old(self).time_slice()
                }
            }),
    {
        let prev = cpu.current_task.unwrap();
        let next = match self.run_queue.pop_task() {
            Some(t) => t,
            None => {
                let prev_running = tasks.get_task(prev).unwrap().state == TaskState::Running;
                if prev_running {
                    return None;
                }
                let idle = cpu.idle_task.unwrap();
                cpu.switch_task(tasks.get_task(idle).unwrap());
                return Some(SwitchPlan { old: prev, new: idle });
            },
        };
        cpu.switch_task(tasks.get_task(next).unwrap());
        let still_running = tasks.get_task(prev).unwrap().state == TaskState::Running;
        if still_running {
            self.run_queue.add_task(prev);
        }
        let cpu_id = cpu.cpu_id;
        tasks.set_on_cpu(next, Some(cpu_id));
        self.reset_time_slice();
        Some(SwitchPlan { old: prev, new: next })
    }
}

impl Scheduler for RRScheduler {
    closed spec fn queue(&self) -> Seq<u32> {
        self.run_queue@
    }

    fn new() -> (s: Self)
        ensures
            s.time_slice() == DEFAULT_TIME_SLICE,
            s.current_slice() == DEFAULT_TIME_SLICE,
    {
        RRScheduler {
            run_queue: TaskQueue::new(),
            time_slice: DEFAULT_TIME_SLICE,
            current_slice: DEFAULT_TIME_SLICE,
        }
    }

    fn add_task(&mut self, tasks: &TaskManager, task: u32) {
        self.run_queue.add_task(task);
    }

    fn sleep_task(&mut self, tasks: &mut TaskManager, task: u32, receive_signal: bool) {
        let state = if receive_signal {
            TaskState::Interruptible
        } else {
            TaskState::Uninterruptible
        };
        tasks.set_state(task, state);
        self.run_queue.remove_task(task);
    }

    fn wake_up(&mut self, tasks: &mut TaskManager, task: u32) {
        tasks.set_state(task, TaskState::Running);
        if !self.run_queue.contains(task) {
            self.run_queue.add_task(task);
        }
    }

    fn exit_task(&mut self, tasks: &mut TaskManager, task: u32) {
        tasks.set_state(task, TaskState::Zombie);
        self.run_queue.remove_task(task);
    }

    fn sleep_task_prepare(&mut self, tasks: &mut TaskManager, task: u32, receive_signal: bool,
        condition_met: bool) -> (slept: bool) {
        if condition_met {
            return false;
        }
        self.sleep_task(tasks, task, receive_signal);
        true
    }
}

} // verus!
