//! The `futex` system call.

use vstd::prelude::*;
use crate::errno::{EINVAL, EAGAIN, ETIMEDOUT, EINTR, EFAULT, ENOSYS};
use crate::kernel::{Kernel, sleep_task_prepare};
use crate::futex::{FutexManager, futex_queues, futex_wake_common, requeue_waiters};
use crate::wait_queue::{waiters_known, woken_in_order};
use crate::syscall::exec::neg;

verus! {

pub const FUTEX_WAIT: u32 = 0;
pub const FUTEX_WAKE: u32 = 1;
pub const FUTEX_REQUEUE: u32 = 3;
pub const FUTEX_CMP_REQUEUE: u32 = 4;
pub const FUTEX_WAIT_BITSET: u32 = 9;
pub const FUTEX_WAKE_BITSET: u32 = 10;
pub const FUTEX_PRIVATE: i32 = 128;
pub const FUTEX_CLOCK_REALTIME: i32 = 256;

/// What the caller read from user memory and the clock for one `futex`
/// call: the physical addresses of `uaddr` and `uaddr2`, the word at
/// `uaddr`, the wake-up tick the timeout gives, and the current tick.
#[derive(Clone, Copy, Debug)]
pub struct FutexInput {
    pub paddr: Result<usize, i32>,
    pub paddr2: Result<usize, i32>,
    pub word: Result<u32, i32>,
    pub trigger: Result<Option<u64>, i32>,
    pub now: u64,
}

/// What `futex` decided.
#[derive(Clone, Copy, Debug, PartialEq, Eq, Structural)]
pub enum FutexOutcome {
    Done(i32),
    /// The task sleeps on the queue of `paddr`, until `trigger` when given;
    /// the caller yields, then calls `futex_wait_finish`.
    Wait { paddr: usize, trigger: Option<u64> },
}

/// Every task waiting on a futex is a known task.
pub open spec fn futex_waiters_known(fm: FutexManager, k: Kernel) -> bool {
    forall|a: usize| #[trigger] futex_queues(fm).contains_key(a) ==> waiters_known(futex_queues(fm)[a], k)
}

/// The operation `op` names, without its private and clock flags.
pub open spec fn futex_cmd(op: i32) -> i32 {
    op & !FUTEX_PRIVATE & !FUTEX_CLOCK_REALTIME
}

proof fn lemma_queue_known(fm: FutexManager, k: Kernel, p: usize)
    requires
        futex_waiters_known(fm, k),
    ensures
        waiters_known(fm.queue(p), k),
{
    if futex_queues(fm).contains_key(p) {
        assert(waiters_known(futex_queues(fm)[p], k));
    }
}

proof fn lemma_known_dom(fm: FutexManager, k1: Kernel, k2: Kernel)
    requires
        futex_waiters_known(fm, k1),
        k2.tasks()@.dom() == k1.tasks()@.dom(),
    ensures
        futex_waiters_known(fm, k2),
{
    assert forall|a: usize| #[trigger] futex_queues(fm).contains_key(a) implies waiters_known(futex_queues(fm)[a], k2) by {
        assert(waiters_known(futex_queues(fm)[a], k1));
        assert forall|t: u32| #[trigger] futex_queues(fm)[a].contains(t) implies k2.tasks()@.contains_key(t) by {
            assert(k1.tasks()@.contains_key(t));
        }
    }
}

proof fn lemma_known_insert(f1: FutexManager, f2: FutexManager, k: Kernel, p: usize, q: Seq<u32>)
    requires
        futex_waiters_known(f1, k),
        futex_queues(f2) == futex_queues(f1).insert(p, q),
        waiters_known(q, k),
    ensures
        futex_waiters_known(f2, k),
{
    assert forall|a: usize| #[trigger] futex_queues(f2).contains_key(a) implies waiters_known(futex_queues(f2)[a], k) by {
        if a != p {
            assert(futex_queues(f1).contains_key(a));
        }
    }
}

proof fn lemma_known_sub(q: Seq<u32>, r: Seq<u32>, k: Kernel)
    requires
        waiters_known(q, k),
        forall|t: u32| #[trigger] r.contains(t) ==> q.contains(t),
    ensures
        waiters_known(r, k),
{
}

proof fn lemma_skip_contains(q: Seq<u32>, n: int)
    requires
        0 <= n <= q.len(),
    ensures
        forall|t: u32| #[trigger] q.skip(n).contains(t) ==> q.contains(t),
        forall|t: u32| #[trigger] q.take(n).contains(t) ==> q.contains(t),
{
    assert forall|t: u32| #[trigger] q.skip(n).contains(t) implies q.contains(t) by {
        let j = choose|j: int| 0 <= j < q.skip(n).len() && q.skip(n)[j] == t;
        assert(q[j + n] == t);
    }
    assert forall|t: u32| #[trigger] q.take(n).contains(t) implies q.contains(t) by {
        let j = choose|j: int| 0 <= j < q.take(n).len() && q.take(n)[j] == t;
        assert(q[j] == t);
    }
}

/// Waits on, wakes, or requeues the waiters of a futex. `timeout_raw` is
/// the raw fourth argument, which the requeue operations read as a count;
/// `uaddr2` is the second address (only whether it is null matters here).
/// Counts above `i32::MAX` are taken as `i32::MAX`.
pub fn futex(k: &mut Kernel, fm: &mut FutexManager, tid: u32, op: i32, val: u32, timeout_raw: usize,
    uaddr2: usize, val3: u32, input: FutexInput, signal_deliverable: bool) -> (r: FutexOutcome)
    requires
        old(k).wf(),
        old(k).tasks()@.contains_key(tid),
        futex_waiters_known(*old(fm), *old(k)),
    ensures
        final(k).wf(),
        futex_waiters_known(*final(fm), *final(k)),
        final(k).tasks()@.dom() == old(k).tasks()@.dom(),
        ({
            let cmd = futex_cmd(op);
            let wake: int = if val > i32::MAX { i32::MAX as int } else { val as int };
            if cmd == FUTEX_WAIT as i32 || cmd == FUTEX_WAIT_BITSET as i32 {
                if cmd == FUTEX_WAIT_BITSET as i32 && val3 == 0 {
                    r == FutexOutcome::Done(neg(EINVAL)) && *final(fm) == *old(fm) && *final(k) == *old(k)
                } else {
                    match (input.paddr, input.word, input.trigger) {
                        (Err(e), _, _) => r == FutexOutcome::Done(e) && *final(fm) == *old(fm) && *final(k) == *old(k),
                        (Ok(_), Err(e), _) => r == FutexOutcome::Done(e) && *final(fm) == *old(fm) && *final(k) == *old(k),
                        (Ok(p), Ok(w), t) => if w != val {
                            r == FutexOutcome::Done(neg(EAGAIN)) && *final(fm) == *old(fm) && *final(k) == *old(k)
                        } else {
                            match t {
                                Err(e) => r == FutexOutcome::Done(e) && *final(fm) == *old(fm) && *final(k) == *old(k),
                                Ok(tr) => if tr matches Some(x) && x <= input.now {
                                    r == FutexOutcome::Done(neg(ETIMEDOUT)) && *final(fm) == *old(fm) && *final(k) == *old(k)
                                } else if signal_deliverable {
                                    r == FutexOutcome::Done(neg(EINTR))
                                        && final(fm).queue(p) == old(fm).queue(p).push(tid).filter(crate::task_queue::other_than(tid))
                                } else {
                                    &&& r == (FutexOutcome::Wait { paddr: p, trigger: tr })
                                    &&& final(fm).queue(p) == old(fm).queue(p).push(tid)
                                    &&& final(k).tasks()@[tid].state == crate::task::TaskState::Interruptible
                                },
                            }
                        },
                    }
                }
            } else if cmd == FUTEX_WAKE as i32 || cmd == FUTEX_WAKE_BITSET as i32 {
                if cmd == FUTEX_WAKE_BITSET as i32 && val3 == 0 {
                    r == FutexOutcome::Done(neg(EINVAL)) && *final(fm) == *old(fm) && *final(k) == *old(k)
                } else {
                    match input.paddr {
                        Err(e) => r == FutexOutcome::Done(e) && *final(fm) == *old(fm) && *final(k) == *old(k),
                        Ok(p) => {
                            let n: int = if old(fm).queue(p).len() < wake { old(fm).queue(p).len() as int } else { wake };
                            &&& r == FutexOutcome::Done(n as i32)
                            &&& final(fm).queue(p) == old(fm).queue(p).skip(n)
                            &&& woken_in_order(*old(k), *final(k), old(fm).queue(p).take(n))
                        },
                    }
                }
            } else if cmd == FUTEX_REQUEUE as i32 || cmd == FUTEX_CMP_REQUEUE as i32 {
                if uaddr2 == 0 {
                    r == FutexOutcome::Done(neg(EFAULT)) && *final(fm) == *old(fm) && *final(k) == *old(k)
                } else {
                    match (input.paddr, input.paddr2) {
                        (Err(e), _) => r == FutexOutcome::Done(e) && *final(fm) == *old(fm) && *final(k) == *old(k),
                        (Ok(_), Err(e)) => r == FutexOutcome::Done(e) && *final(fm) == *old(fm) && *final(k) == *old(k),
                        (Ok(p1), Ok(p2)) => if cmd == FUTEX_CMP_REQUEUE as i32 && input.word != Ok::<u32, i32>(val3) {
                            r == FutexOutcome::Done(match input.word { Err(e) => e, Ok(_) => neg(EAGAIN) })
                                && *final(fm) == *old(fm) && *final(k) == *old(k)
                        } else {
                            let n: int = if old(fm).queue(p1).len() < wake { old(fm).queue(p1).len() as int } else { wake };
                            &&& woken_in_order(*old(k), *final(k), old(fm).queue(p1).take(n))
                            &&& if p1 == p2 {
                                r == FutexOutcome::Done(n as i32) && final(fm).queue(p1) == old(fm).queue(p1).skip(n)
                            } else {
                                let rest = old(fm).queue(p1).skip(n);
                                let lim: int = if (timeout_raw as u32) > i32::MAX - n { i32::MAX - n } else { (timeout_raw as u32) as int };
                                let m: int = if rest.len() < lim { rest.len() as int } else { lim };
                                &&& r == FutexOutcome::Done((n + m) as i32)
                                &&& final(fm).queue(p1) == rest.skip(m)
                                &&& final(fm).queue(p2) == old(fm).queue(p2) + rest.take(m)
                            }
                        },
                    }
                }
            } else {
                r == FutexOutcome::Done(neg(ENOSYS)) && *final(fm) == *old(fm) && *final(k) == *old(k)
            }
        }),
{
    let cmd = op & !FUTEX_PRIVATE & !FUTEX_CLOCK_REALTIME;
    let wake: u32 = if val > i32::MAX as u32 { i32::MAX as u32 } else { val };
    if cmd == FUTEX_WAIT as i32 || cmd == FUTEX_WAIT_BITSET as i32 {
        if cmd == FUTEX_WAIT_BITSET as i32 && val3 == 0 {
            return FutexOutcome::Done(-EINVAL);
        }
        let p = match input.paddr {
            Err(e) => return FutexOutcome::Done(e),
            Ok(p) => p,
        };
        let w = match input.word {
            Err(e) => return FutexOutcome::Done(e),
            Ok(w) => w,
        };
        if w != val {
            return FutexOutcome::Done(-EAGAIN);
        }
        let trigger = match input.trigger {
            Err(e) => return FutexOutcome::Done(e),
            Ok(t) => t,
        };
        if let Some(t) = trigger {
            if t <= input.now {
                return FutexOutcome::Done(-ETIMEDOUT);
            }
        }
        let ghost k0 = *k;
        proof { lemma_queue_known(*fm, *k, p); }
        fm.add_waiter(p, tid);
        let ghost f1 = *fm;
        proof {
            assert(f1.queue(p) == old(fm).queue(p).push(tid));
            assert forall|t: u32| #[trigger] f1.queue(p).contains(t) implies k0.tasks()@.contains_key(t) by {
                if t != tid {
                    let j = choose|j: int| 0 <= j < f1.queue(p).len() && f1.queue(p)[j] == t;
                    assert(old(fm).queue(p)[j] == t);
                    assert(old(fm).queue(p).contains(t));
                }
            }
            lemma_known_insert(*old(fm), f1, k0, p, f1.queue(p));
        }
        let slept = sleep_task_prepare(k, tid, true, signal_deliverable);
        proof {
            assert(k.tasks()@.dom() =~= k0.tasks()@.dom());
            lemma_known_dom(f1, k0, *k);
        }
        if !slept {
            fm.remove_waiter(p, tid);
            proof {
                lemma_queue_known(f1, *k, p);
                crate::task_queue::lemma_remove_drops_only_task(f1.queue(p), tid);
                assert forall|t: u32| #[trigger] f1.queue(p).filter(crate::task_queue::other_than(tid)).contains(t)
                    implies f1.queue(p).contains(t) by {
                }
                lemma_known_sub(f1.queue(p), f1.queue(p).filter(crate::task_queue::other_than(tid)), *k);
                lemma_known_insert(f1, *fm, *k, p, f1.queue(p).filter(crate::task_queue::other_than(tid)));
            }
            return FutexOutcome::Done(-EINTR);
        }
        return FutexOutcome::Wait { paddr: p, trigger };
    }
    if cmd == FUTEX_WAKE as i32 || cmd == FUTEX_WAKE_BITSET as i32 {
        if cmd == FUTEX_WAKE_BITSET as i32 && val3 == 0 {
            return FutexOutcome::Done(-EINVAL);
        }
        let p = match input.paddr {
            Err(e) => return FutexOutcome::Done(e),
            Ok(p) => p,
        };
        proof { lemma_queue_known(*fm, *k, p); }
        let ghost k0 = *k;
        let n = futex_wake_common(k, fm, p, wake);
        proof {
            lemma_known_dom(*old(fm), k0, *k);
            lemma_queue_known(*old(fm), *k, p);
            lemma_skip_contains(old(fm).queue(p), n as int);
            lemma_known_sub(old(fm).queue(p), old(fm).queue(p).skip(n as int), *k);
            lemma_known_insert(*old(fm), *fm, *k, p, old(fm).queue(p).skip(n as int));
        }
        return FutexOutcome::Done(n);
    }
    if cmd == FUTEX_REQUEUE as i32 || cmd == FUTEX_CMP_REQUEUE as i32 {
        if uaddr2 == 0 {
            return FutexOutcome::Done(-EFAULT);
        }
        let p1 = match input.paddr {
            Err(e) => return FutexOutcome::Done(e),
            Ok(p) => p,
        };
        let p2 = match input.paddr2 {
            Err(e) => return FutexOutcome::Done(e),
            Ok(p) => p,
        };
        let requeue_count = #[verifier::truncate] (timeout_raw as u32);
        if cmd == FUTEX_CMP_REQUEUE as i32 {
            match input.word {
                Err(e) => return FutexOutcome::Done(e),
                Ok(w) => if w != val3 {
                    return FutexOutcome::Done(-EAGAIN);
                },
            }
        }
        proof { lemma_queue_known(*fm, *k, p1); }
        let ghost k0 = *k;
        let n = futex_wake_common(k, fm, p1, wake);
        let ghost f1 = *fm;
        proof {
            lemma_known_dom(*old(fm), k0, *k);
            lemma_queue_known(*old(fm), *k, p1);
            lemma_skip_contains(old(fm).queue(p1), n as int);
            lemma_known_sub(old(fm).queue(p1), old(fm).queue(p1).skip(n as int), *k);
            lemma_known_insert(*old(fm), f1, *k, p1, old(fm).queue(p1).skip(n as int));
        }
        if p1 == p2 {
            return FutexOutcome::Done(n);
        }
        let mut src = fm.take_wait_queue(p1);
        let mut dst = fm.take_wait_queue(p2);
        let limit = if requeue_count > (i32::MAX as u32) - (n as u32) { (i32::MAX as u32) - (n as u32) } else { requeue_count };
        let ghost s0 = src@;
        let ghost d0 = dst@;
        let moved = requeue_waiters(&mut src, &mut dst, limit);
        let ghost f2 = *fm;
        fm.put_wait_queue(p2, dst);
        let ghost f3 = *fm;
        fm.put_wait_queue(p1, src);
        proof {
            lemma_queue_known(f1, *k, p1);
            lemma_queue_known(f1, *k, p2);
            lemma_skip_contains(s0, moved as int);
            lemma_known_sub(s0, s0.skip(moved as int), *k);
            assert forall|t: u32| #[trigger] (d0 + s0.take(moved as int)).contains(t) implies k.tasks()@.contains_key(t) by {
                let j = choose|j: int| 0 <= j < (d0 + s0.take(moved as int)).len() && (d0 + s0.take(moved as int))[j] == t;
                if j < d0.len() { assert(d0[j] == t); assert(d0.contains(t)); }
                else { assert(s0.take(moved as int)[j - d0.len()] == t); assert(s0.take(moved as int).contains(t)); }
            }
            assert forall|a: usize| #[trigger] futex_queues(f2).contains_key(a) implies waiters_known(futex_queues(f2)[a], *k) by {
                assert(futex_queues(f1).contains_key(a));
            }
            lemma_known_insert(f2, f3, *k, p2, d0 + s0.take(moved as int));
            lemma_known_insert(f3, *fm, *k, p1, s0.skip(moved as int));
            assert(fm.queue(p2) == f3.queue(p2));
        }
        return FutexOutcome::Done(n + moved);
    }
    FutexOutcome::Done(-ENOSYS)
}

/// After the wait: the task leaves the queue if it is still on it. A
/// pending signal gives `-EINTR`; a timeout that fired (the timer was no
/// longer pending) while the task still waited gives `-ETIMEDOUT`.
pub fn futex_wait_finish(fm: &mut FutexManager, tid: u32, paddr: usize, had_trigger: bool,
    timer_was_pending: bool, signal_pending: bool) -> (r: i32)
    ensures
        final(fm).queue(paddr) == old(fm).queue(paddr).filter(crate::task_queue::other_than(tid)),
        futex_queues(*final(fm)) == futex_queues(*old(fm)).insert(paddr, final(fm).queue(paddr)),
        r == if signal_pending { neg(EINTR) } else if had_trigger && old(fm).queue(paddr).contains(tid) && !timer_was_pending {
            neg(ETIMEDOUT)
        } else {
            0
        },
{
    let still_waiting = fm.remove_waiter(paddr, tid);
    if signal_pending {
        return -EINTR;
    }
    if had_trigger && still_waiting && !timer_was_pending {
        return -ETIMEDOUT;
    }
    0
}

} // verus!
