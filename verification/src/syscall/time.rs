//! Clocks, sleeping and interval timers, measured in timer ticks.

use vstd::prelude::*;
use crate::errno::{EINTR, EINVAL, ENOSYS};
use crate::kernel::{Kernel, cur, current_task, has_current, home_cpu, sleep_task};
use crate::scheduler::sleep_state;
use crate::task_queue::other_than;

verus! {

pub const NSEC_PER_SEC: u64 = 1_000_000_000;

/// A time in seconds and nanoseconds.
#[derive(Clone, Copy, Debug, PartialEq, Eq, Structural)]
pub struct TimeSpec {
    pub tv_sec: i64,
    pub tv_nsec: i64,
}

/// A time in seconds and microseconds.
#[derive(Clone, Copy, Debug, PartialEq, Eq, Structural)]
pub struct TimeVal {
    pub tv_sec: i64,
    pub tv_usec: i64,
}

/// An interval timer: the time to the next expiry and the period.
#[derive(Clone, Copy, Debug, PartialEq, Eq, Structural)]
pub struct Itimerval {
    pub it_interval: TimeVal,
    pub it_value: TimeVal,
}

pub open spec fn ts_valid(t: TimeSpec) -> bool {
    t.tv_sec >= 0 && 0 <= t.tv_nsec < NSEC_PER_SEC
}

/// A valid time in ticks of a `freq` Hz timer, rounded down, and at most
/// the largest tick count.
pub open spec fn ticks_of(t: TimeSpec, freq: u64) -> u64 {
    let v = t.tv_sec as int * freq + (t.tv_nsec as int * freq) / NSEC_PER_SEC as int;
    if v > u64::MAX { u64::MAX } else { v as u64 }
}

pub fn into_freq(t: TimeSpec, freq: u64) -> (r: u64)
    requires
        ts_valid(t),
    ensures
        r == ticks_of(t, freq),
{
    let s = t.tv_sec as u128;
    let ns = t.tv_nsec as u128;
    let f = freq as u128;
    proof {
        assert(s * f <= 0x7fff_ffff_ffff_ffff * 0xffff_ffff_ffff_ffff) by (nonlinear_arith)
            requires s <= 0x7fff_ffff_ffff_ffff, f <= 0xffff_ffff_ffff_ffff;
        assert(ns * f <= 1_000_000_000 * 0xffff_ffff_ffff_ffff) by (nonlinear_arith)
            requires ns < 1_000_000_000, f <= 0xffff_ffff_ffff_ffff;
    }
    let v = s * f + (ns * f) / 1_000_000_000;
    if v > u64::MAX as u128 { u64::MAX } else { v as u64 }
}

/// A tick count of a `freq` Hz timer as a time.
pub open spec fn ts_of_ticks(ticks: u64, freq: u64) -> TimeSpec {
    TimeSpec {
        tv_sec: (ticks / freq) as i64,
        tv_nsec: (((ticks % freq) as int * NSEC_PER_SEC) / freq as int) as i64,
    }
}

pub fn from_freq(ticks: u64, freq: u64) -> (r: TimeSpec)
    requires
        freq > 0,
    ensures
        r == ts_of_ticks(ticks, freq),
{
    let rem = (ticks % freq) as u128;
    proof {
        assert(rem * 1_000_000_000 < freq as u128 * 1_000_000_000) by (nonlinear_arith)
            requires rem < freq;
        assert((rem * 1_000_000_000) as int / (freq as int) < 1_000_000_000) by (nonlinear_arith)
            requires rem < freq, freq > 0;
    }
    #[verifier::truncate]
    let sec = (ticks / freq) as i64;
    TimeSpec { tv_sec: sec, tv_nsec: ((rem * 1_000_000_000) / (freq as u128)) as i64 }
}

pub open spec fn tv_of(t: TimeSpec) -> TimeVal {
    TimeVal { tv_sec: t.tv_sec, tv_usec: if t.tv_nsec >= 0 { (t.tv_nsec / 1000) as i64 } else { (-((-t.tv_nsec) / 1000)) as i64 } }
}

/// A time value an interval timer accepts: seconds not negative,
/// microseconds below one second.
pub open spec fn tv_valid(t: TimeVal) -> bool {
    t.tv_sec >= 0 && 0 <= t.tv_usec < 1_000_000
}

pub open spec fn ts_of_tv(t: TimeVal) -> TimeSpec {
    TimeSpec { tv_sec: t.tv_sec, tv_nsec: (t.tv_usec as int * 1000) as i64 }
}

/// The timers of sleeping tasks: `(expiry tick, task)`.
pub struct TimerQueue {
    pub entries: Vec<(u64, u32)>,
}

/// The interval timers: `(owner process, signal, expiry tick, period)`.
pub struct ItimerTable {
    pub entries: Vec<(u32, usize, u64, TimeSpec)>,
}

/// The clocks.
pub const CLOCK_REALTIME: i32 = 0;
pub const CLOCK_MONOTONIC: i32 = 1;
pub const CLOCK_PROCESS_CPUTIME_ID: i32 = 2;
pub const CLOCK_MONOTONIC_RAW: i32 = 4;
pub const CLOCK_REALTIME_COARSE: i32 = 5;
pub const CLOCK_MONOTONIC_COARSE: i32 = 6;
pub const CLOCK_BOOTTIME: i32 = 7;
pub const CLOCK_TAI: i32 = 11;
pub const MAX_CLOCKS: i32 = 16;
pub const TIMER_ABSTIME: i32 = 1;

/// Which clock a `clock_*` call reads.
#[derive(Clone, Copy, Debug, PartialEq, Eq, Structural)]
pub enum ClockKind {
    Realtime,
    Monotonic,
}

/// The clock `clk_id` names: the real-time and monotonic clocks (with
/// their coarse and raw forms) are kept; other known clocks are `ENOSYS`,
/// unknown ones `EINVAL`.
pub open spec fn clock_kind(clk_id: i32) -> Result<ClockKind, i32> {
    if clk_id == CLOCK_REALTIME || clk_id == CLOCK_REALTIME_COARSE {
        Ok(ClockKind::Realtime)
    } else if clk_id == CLOCK_MONOTONIC || clk_id == CLOCK_MONOTONIC_COARSE || clk_id == CLOCK_MONOTONIC_RAW {
        Ok(ClockKind::Monotonic)
    } else if 0 <= clk_id < MAX_CLOCKS {
        Err(ENOSYS)
    } else {
        Err(EINVAL)
    }
}

pub fn clock_of(clk_id: i32) -> (r: Result<ClockKind, i32>)
    ensures
        r == clock_kind(clk_id),
{
    if clk_id == CLOCK_REALTIME || clk_id == CLOCK_REALTIME_COARSE {
        Ok(ClockKind::Realtime)
    } else if clk_id == CLOCK_MONOTONIC || clk_id == CLOCK_MONOTONIC_COARSE || clk_id == CLOCK_MONOTONIC_RAW {
        Ok(ClockKind::Monotonic)
    } else if 0 <= clk_id && clk_id < MAX_CLOCKS {
        Err(ENOSYS)
    } else {
        Err(EINVAL)
    }
}

/// `clock_gettime`: the clock's current time, given both clocks' times.
pub fn clock_gettime(clk_id: i32, realtime: TimeSpec, monotonic: TimeSpec) -> (r: Result<TimeSpec, i32>)
    ensures
        match clock_kind(clk_id) {
            Ok(ClockKind::Realtime) => r == Ok::<TimeSpec, i32>(realtime),
            Ok(ClockKind::Monotonic) => r == Ok::<TimeSpec, i32>(monotonic),
            Err(e) => r == Err::<TimeSpec, i32>(e),
        },
{
    match clock_of(clk_id) {
        Ok(ClockKind::Realtime) => Ok(realtime),
        Ok(ClockKind::Monotonic) => Ok(monotonic),
        Err(e) => Err(e),
    }
}

/// `clock_settime`: only the real-time clock can be set (`Ok(())`: set it
/// to the given time); the monotonic clock is `EINVAL`.
pub fn clock_settime(clk_id: i32) -> (r: Result<(), i32>)
    ensures
        match clock_kind(clk_id) {
            Ok(ClockKind::Realtime) => r is Ok,
            Ok(ClockKind::Monotonic) => r == Err::<(), i32>(EINVAL),
            Err(e) => r == Err::<(), i32>(e),
        },
{
    match clock_of(clk_id) {
        Ok(ClockKind::Realtime) => Ok(()),
        Ok(ClockKind::Monotonic) => Err(EINVAL),
        Err(e) => Err(e),
    }
}

/// `clock_getres`: one tick of the `freq` Hz timer, for either clock.
pub fn clock_getres(clk_id: i32, freq: u64) -> (r: Result<TimeSpec, i32>)
    requires
        freq > 0,
    ensures
        match clock_kind(clk_id) {
            Ok(_k) => r == Ok::<TimeSpec, i32>(TimeSpec { tv_sec: 0, tv_nsec: (1_000_000_000int / freq as int) as i64 }),
            Err(e) => r == Err::<TimeSpec, i32>(e),
        },
{
    match clock_of(clk_id) {
        Ok(_k) => Ok(TimeSpec { tv_sec: 0, tv_nsec: (1_000_000_000 / freq) as i64 }),
        Err(e) => Err(e),
    }
}

/// Files a timer for `tid` expiring at `trigger` and puts `tid` to sleep.
fn sleep_until(k: &mut Kernel, tq: &mut TimerQueue, tid: u32, trigger: u64)
    requires
        old(k).wf(),
        old(k).tasks()@.contains_key(tid),
    ensures
        final(k).wf(),
        final(tq).entries@ == old(tq).entries@.push((trigger, tid)),
        final(k).tasks()@ == old(k).tasks()@.insert(tid, old(k).tasks()@[tid].with_state(sleep_state(true))),
        final(k).queue(home_cpu(*old(k), tid)) == old(k).queue(home_cpu(*old(k), tid)).filter(other_than(tid)),
        final(k).queues_but(*old(k), home_cpu(*old(k), tid)),
{
    tq.entries.push((trigger, tid));
    sleep_task(k, tid, true);
}

/// `nanosleep`, first part: a zero request returns 0 at once (`Ok(None)`);
/// an invalid one is `EINVAL`; otherwise the caller sleeps with a timer for
/// `now` plus the request, and the expiry tick is returned.
pub fn nanosleep(k: &mut Kernel, tq: &mut TimerQueue, req: TimeSpec, now: u64, freq: u64) -> (r: Result<Option<u64>, i32>)
    requires
        old(k).wf(),
        has_current(*old(k)),
    ensures
        final(k).wf(),
        req.tv_sec == 0 && req.tv_nsec == 0 ==> r == Ok::<Option<u64>, i32>(None) && *final(k) == *old(k) && final(tq).entries@ == old(tq).entries@,
        !(req.tv_sec == 0 && req.tv_nsec == 0) && !ts_valid(req) ==> r == Err::<Option<u64>, i32>(EINVAL) && *final(k) == *old(k)
            && final(tq).entries@ == old(tq).entries@,
        !(req.tv_sec == 0 && req.tv_nsec == 0) && ts_valid(req) ==> ({
            let me = cur(*old(k));
            let trigger = (now + ticks_of(req, freq)) as u64;
            &&& now + ticks_of(req, freq) <= u64::MAX ==> r == Ok::<Option<u64>, i32>(Some(trigger))
            &&& now + ticks_of(req, freq) > u64::MAX ==> r == Ok::<Option<u64>, i32>(Some(u64::MAX))
            &&& r matches Ok(Some(t)) && final(tq).entries@ == old(tq).entries@.push((t, me))
            &&& final(k).tasks()@ == old(k).tasks()@.insert(me, old(k).tasks()@[me].with_state(sleep_state(true)))
        }),
{
    if req.tv_sec == 0 && req.tv_nsec == 0 {
        return Ok(None);
    }
    if req.tv_sec < 0 || req.tv_nsec < 0 || req.tv_nsec > 999_999_999 {
        return Err(EINVAL);
    }
    let me = current_task(k);
    let ticks = into_freq(req, freq);
    let trigger = now.saturating_add(ticks);
    sleep_until(k, tq, me, trigger);
    Ok(Some(trigger))
}

/// Takes every timer of `tid` off the queue.
pub fn remove_timer(tq: &mut TimerQueue, tid: u32)
    ensures
        final(tq).entries@ == old(tq).entries@.filter(|e: (u64, u32)| e.1 != tid),
{
    let mut kept: Vec<(u64, u32)> = Vec::new();
    let mut i: usize = 0;
    while i < tq.entries.len()
        invariant
            i <= tq.entries@.len(),
            tq.entries@ == old(tq).entries@,
            kept@ == old(tq).entries@.take(i as int).filter(|e: (u64, u32)| e.1 != tid),
        decreases tq.entries@.len() - i,
    {
        let e = tq.entries[i];
        proof {
            assert(old(tq).entries@.take(i + 1) =~= old(tq).entries@.take(i as int).push(e));
            old(tq).entries@.take(i as int).lemma_filter_push(e, |e: (u64, u32)| e.1 != tid);
        }
        if e.1 != tid {
            kept.push(e);
        }
        i = i + 1;
    }
    proof {
        assert(old(tq).entries@.take(old(tq).entries@.len() as int) =~= old(tq).entries@);
    }
    tq.entries = kept;
}

/// `nanosleep` and `clock_nanosleep` after the caller is woken at tick
/// `now`: its timer is gone; with a place for the remainder (`want_rem`),
/// time left before `trigger` means the sleep was interrupted (`EINTR`,
/// with that time), none means 0 and a zero remainder; without one the
/// result is 0.
pub fn sleep_finish(tq: &mut TimerQueue, tid: u32, trigger: u64, now: u64, freq: u64, want_rem: bool) -> (r: (i32, Option<TimeSpec>))
    requires
        freq > 0,
    ensures
        final(tq).entries@ == old(tq).entries@.filter(|e: (u64, u32)| e.1 != tid),
        !want_rem ==> r == (0i32, None::<TimeSpec>),
        want_rem && trigger > now ==> r.0 == -EINTR && r.1 == Some(ts_of_ticks((trigger - now) as u64, freq)),
        want_rem && trigger <= now ==> r.0 == 0 && r.1 == Some(ts_of_ticks(0, freq)),
{
    remove_timer(tq, tid);
    if !want_rem {
        return (0, None);
    }
    let dur = trigger.saturating_sub(now);
    if dur > 0 {
        (-EINTR, Some(from_freq(dur, freq)))
    } else {
        (0, Some(from_freq(0, freq)))
    }
}

/// `clock_nanosleep`, first part: the expiry tick is the request itself
/// with `TIMER_ABSTIME`, else the clock's current tick plus the request
/// (saturating); then the caller sleeps with a timer for it. Clocks other
/// than the real-time and monotonic ones are `ENOSYS` when known, else
/// `EINVAL`.
pub fn clock_nanosleep(k: &mut Kernel, tq: &mut TimerQueue, clk_id: i32, flags: i32, req: TimeSpec,
    realtime_now: u64, mono_now: u64, freq: u64) -> (r: Result<u64, i32>)
    requires
        old(k).wf(),
        has_current(*old(k)),
        ts_valid(req),
    ensures
        final(k).wf(),
        ({
            let ticks = ticks_of(req, freq);
            let abs = flags & TIMER_ABSTIME != 0;
            let sat = |a: u64| if a + ticks > u64::MAX { u64::MAX } else { (a + ticks) as u64 };
            let me = cur(*old(k));
            let target: Result<u64, i32> = if abs {
                Ok(ticks)
            } else if clk_id == CLOCK_REALTIME {
                Ok(sat(realtime_now))
            } else if clk_id == CLOCK_MONOTONIC {
                Ok(sat(mono_now))
            } else if clk_id == CLOCK_TAI || clk_id == CLOCK_BOOTTIME || clk_id == CLOCK_PROCESS_CPUTIME_ID {
                Err(ENOSYS)
            } else {
                Err(EINVAL)
            };
            match target {
                Err(e) => r == Err::<u64, i32>(e) && *final(k) == *old(k) && final(tq).entries@ == old(tq).entries@,
                Ok(t) => r == Ok::<u64, i32>(t) && final(tq).entries@ == old(tq).entries@.push((t, me))
                    && final(k).tasks()@ == old(k).tasks()@.insert(me, old(k).tasks()@[me].with_state(sleep_state(true))),
            }
        }),
{
    let ticks = into_freq(req, freq);
    let trigger = if flags & TIMER_ABSTIME != 0 {
        ticks
    } else if clk_id == CLOCK_REALTIME {
        realtime_now.saturating_add(ticks)
    } else if clk_id == CLOCK_MONOTONIC {
        mono_now.saturating_add(ticks)
    } else if clk_id == CLOCK_TAI || clk_id == CLOCK_BOOTTIME || clk_id == CLOCK_PROCESS_CPUTIME_ID {
        return Err(ENOSYS);
    } else {
        return Err(EINVAL);
    };
    let me = current_task(k);
    sleep_until(k, tq, me, trigger);
    Ok(trigger)
}

pub const ITIMER_REAL: i32 = 0;
pub const ITIMER_VIRTUAL: i32 = 1;
pub const ITIMER_PROF: i32 = 2;
pub const SIGALRM: usize = 14;
pub const SIGVTALRM: usize = 26;
pub const SIGPROF: usize = 27;

/// The signal an interval timer sends.
pub open spec fn itimer_signal(which: i32) -> Option<usize> {
    if which == ITIMER_REAL { Some(SIGALRM) }
    else if which == ITIMER_VIRTUAL { Some(SIGVTALRM) }
    else if which == ITIMER_PROF { Some(SIGPROF) }
    else { None }
}

/// The owner of the caller's interval timers: its process leader, or the
/// caller itself when the leader is gone.
pub open spec fn itimer_owner(k: Kernel) -> u32 {
    let me = cur(k);
    let pid = k.tasks()@[me].pid;
    if k.tasks()@.contains_key(pid) { pid } else { me }
}

/// The first timer of `owner` for `sig`, by position.
pub open spec fn first_timer(t: Seq<(u32, usize, u64, TimeSpec)>, owner: u32, sig: usize, i: int) -> bool {
    &&& 0 <= i < t.len()
    &&& t[i].0 == owner && t[i].1 == sig
    &&& forall|j: int| 0 <= j < i ==> !(#[trigger] t[j].0 == owner && t[j].1 == sig)
}

/// What a timer shows at tick `now`: the time to expiry and the period.
pub open spec fn timer_value(e: (u32, usize, u64, TimeSpec), now: u64, freq: u64) -> Itimerval {
    Itimerval {
        it_value: tv_of(ts_of_ticks(if e.2 > now { (e.2 - now) as u64 } else { 0 }, freq)),
        it_interval: tv_of(e.3),
    }
}

pub open spec fn itimer_zero() -> Itimerval {
    Itimerval { it_interval: TimeVal { tv_sec: 0, tv_usec: 0 }, it_value: TimeVal { tv_sec: 0, tv_usec: 0 } }
}

/// What `getitimer` reports for `owner`'s timer `sig` at `now`: the first
/// such timer's value, or zero.
pub open spec fn itimer_current(t: Seq<(u32, usize, u64, TimeSpec)>, owner: u32, sig: usize, now: u64, freq: u64) -> Itimerval {
    if exists|i: int| first_timer(t, owner, sig, i) {
        timer_value(t[choose|i: int| first_timer(t, owner, sig, i)], now, freq)
    } else {
        itimer_zero()
    }
}

fn find_timer(tt: &ItimerTable, owner: u32, sig: usize) -> (r: Option<usize>)
    ensures
        r matches Some(i) ==> first_timer(tt.entries@, owner, sig, i as int),
        r is None ==> forall|j: int| 0 <= j < tt.entries@.len() ==> !(#[trigger] tt.entries@[j].0 == owner && tt.entries@[j].1 == sig),
{
    let mut i: usize = 0;
    while i < tt.entries.len()
        invariant
            i <= tt.entries@.len(),
            forall|j: int| 0 <= j < i ==> !(#[trigger] tt.entries@[j].0 == owner && tt.entries@[j].1 == sig),
        decreases tt.entries@.len() - i,
    {
        if tt.entries[i].0 == owner && tt.entries[i].1 == sig {
            return Some(i);
        }
        i = i + 1;
    }
    None
}

fn tv_exec(t: TimeSpec) -> (r: TimeVal)
    ensures
        r == tv_of(t),
{
    TimeVal { tv_sec: t.tv_sec, tv_usec: t.tv_nsec / 1000 }
}

fn current_value(tt: &ItimerTable, owner: u32, sig: usize, now: u64, freq: u64) -> (r: Itimerval)
    requires
        freq > 0,
    ensures
        r == itimer_current(tt.entries@, owner, sig, now, freq),
{
    match find_timer(tt, owner, sig) {
        Some(i) => {
            proof {
                let c = choose|c: int| first_timer(tt.entries@, owner, sig, c);
                if c < i { assert(!(tt.entries@[c].0 == owner && tt.entries@[c].1 == sig)); }
                if i < c { assert(!(tt.entries@[i as int].0 == owner && tt.entries@[i as int].1 == sig)); }
            }
            let e = tt.entries[i];
            let left = if e.2 > now { e.2 - now } else { 0 };
            Itimerval { it_value: tv_exec(from_freq(left, freq)), it_interval: tv_exec(e.3) }
        },
        None => Itimerval { it_interval: TimeVal { tv_sec: 0, tv_usec: 0 }, it_value: TimeVal { tv_sec: 0, tv_usec: 0 } },
    }
}

fn owner_of(k: &Kernel) -> (o: u32)
    requires
        k.wf(),
        has_current(*k),
    ensures
        o == itimer_owner(*k),
{
    let me = current_task(k);
    let pid = k.task_manager().get_task(me).unwrap().pid;
    if k.task_manager().contains(pid) { pid } else { me }
}

/// `getitimer`: the caller's process timer `which` (real, virtual or
/// profiling) at tick `now`.
pub fn getitimer(k: &Kernel, tt: &ItimerTable, which: i32, now: u64, freq: u64) -> (r: Result<Itimerval, i32>)
    requires
        k.wf(),
        has_current(*k),
        freq > 0,
    ensures
        match itimer_signal(which) {
            None => r == Err::<Itimerval, i32>(EINVAL),
            Some(sig) => r == Ok::<Itimerval, i32>(itimer_current(tt.entries@, itimer_owner(*k), sig, now, freq)),
        },
{
    let sig = if which == ITIMER_REAL { SIGALRM } else if which == ITIMER_VIRTUAL { SIGVTALRM }
        else if which == ITIMER_PROF { SIGPROF } else { return Err(EINVAL); };
    Ok(current_value(tt, owner_of(k), sig, now, freq))
}

/// `setitimer`: a value or period with negative fields or a microsecond
/// count of a second or more is `EINVAL`. Otherwise it reports the old value (as `getitimer` would), drops every
/// timer of the caller's process for that signal, and arms a new one
/// expiring `new_value.it_value` from `now`, with the new period, unless
/// that value is zero.
pub fn setitimer(k: &Kernel, tt: &mut ItimerTable, which: i32, new_value: Itimerval, now: u64, freq: u64) -> (r: Result<Itimerval, i32>)
    requires
        k.wf(),
        has_current(*k),
        freq > 0,
    ensures
        !tv_valid(new_value.it_value) || !tv_valid(new_value.it_interval) ==> r == Err::<Itimerval, i32>(EINVAL) && final(tt).entries@ == old(tt).entries@,
        tv_valid(new_value.it_value) && tv_valid(new_value.it_interval) ==> match itimer_signal(which) {
            None => r == Err::<Itimerval, i32>(EINVAL) && final(tt).entries@ == old(tt).entries@,
            Some(sig) => {
                let owner = itimer_owner(*k);
                let kept = old(tt).entries@.filter(|e: (u32, usize, u64, TimeSpec)| !(e.0 == owner && e.1 == sig));
                let v = new_value.it_value;
                &&& r == Ok::<Itimerval, i32>(itimer_current(old(tt).entries@, owner, sig, now, freq))
                &&& if v.tv_sec == 0 && v.tv_usec == 0 {
                        final(tt).entries@ == kept
                    } else {
                        final(tt).entries@ == kept.push((owner, sig,
                            if now + ticks_of(ts_of_tv(v), freq) > u64::MAX { u64::MAX } else { (now + ticks_of(ts_of_tv(v), freq)) as u64 },
                            ts_of_tv(new_value.it_interval)))
                    }
            },
        },
{
    let (nv, ni) = (new_value.it_value, new_value.it_interval);
    if nv.tv_sec < 0 || nv.tv_usec < 0 || nv.tv_usec >= 1_000_000 || ni.tv_sec < 0 || ni.tv_usec < 0 || ni.tv_usec >= 1_000_000 {
        return Err(EINVAL);
    }
    let sig = if which == ITIMER_REAL { SIGALRM } else if which == ITIMER_VIRTUAL { SIGVTALRM }
        else if which == ITIMER_PROF { SIGPROF } else { return Err(EINVAL); };
    let owner = owner_of(k);
    let old_value = current_value(tt, owner, sig, now, freq);
    let mut kept: Vec<(u32, usize, u64, TimeSpec)> = Vec::new();
    let mut i: usize = 0;
    while i < tt.entries.len()
        invariant
            i <= tt.entries@.len(),
            tt.entries@ == old(tt).entries@,
            kept@ == old(tt).entries@.take(i as int).filter(|e: (u32, usize, u64, TimeSpec)| !(e.0 == owner && e.1 == sig)),
        decreases tt.entries@.len() - i,
    {
        let e = tt.entries[i];
        proof {
            assert(old(tt).entries@.take(i + 1) =~= old(tt).entries@.take(i as int).push(e));
            old(tt).entries@.take(i as int).lemma_filter_push(e, |e: (u32, usize, u64, TimeSpec)| !(e.0 == owner && e.1 == sig));
        }
        if !(e.0 == owner && e.1 == sig) {
            kept.push(e);
        }
        i = i + 1;
    }
    proof {
        assert(old(tt).entries@.take(old(tt).entries@.len() as int) =~= old(tt).entries@);
    }
    let v = new_value.it_value;
    if !(v.tv_sec == 0 && v.tv_usec == 0) {
        let vt = TimeSpec { tv_sec: v.tv_sec, tv_nsec: v.tv_usec * 1000 };
        let trigger = now.saturating_add(into_freq(vt, freq));
        let iv = new_value.it_interval;
        kept.push((owner, sig, trigger, TimeSpec { tv_sec: iv.tv_sec, tv_nsec: iv.tv_usec * 1000 }));
    }
    tt.entries = kept;
    Ok(old_value)
}

} // verus!
