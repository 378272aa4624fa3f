//! `brk`, `mmap` and `munmap`: the argument checks and what the calls
//! return for each answer of the memory manager.

use vstd::prelude::*;
use crate::errno::{EINVAL, EOPNOTSUPP};
use crate::kernel::Kernel;

verus! {

pub const PROT_READ: i32 = 0x1;
pub const PROT_WRITE: i32 = 0x2;
pub const PROT_EXEC: i32 = 0x4;
pub const MAP_SHARED: i32 = 0x01;
pub const MAP_PRIVATE: i32 = 0x02;
pub const MAP_FIXED: i32 = 0x10;
pub const MAP_ANONYMOUS: i32 = 0x20;
/// What `mmap` returns on failure.
pub const MAP_FAILED: isize = -1;

/// The address space active on this CPU; there must be one.
pub fn current_memory_space(k: &Kernel) -> (s: u64)
    requires
        k.wf(),
        k.cpu(k.cur_cpu() as int).current_memory_space is Some,
    ensures
        s == k.cpu(k.cur_cpu() as int).current_memory_space->0,
{
    crate::kernel::current_cpu(k).current_memory_space.unwrap()
}

/// `brk(0)` asks for the current break (0 when the space has none) and
/// needs no change (`Some`); any other address is asked of the memory
/// manager (`None`).
pub fn brk_query(current: Option<u64>, new_brk: u64) -> (r: Option<isize>)
    ensures
        new_brk == 0 ==> r == Some((match current { Some(c) => c, None => 0 }) as isize),
        new_brk != 0 ==> r is None,
{
    if new_brk == 0 {
        #[verifier::truncate]
        let c = (match current { Some(c) => c, None => 0 }) as isize;
        Some(c)
    } else {
        None
    }
}

/// What `brk` returns when the memory manager answered `result`: the new
/// break, or on failure the break as it was (0 when the space has none).
pub fn brk_result(current: Option<u64>, result: Option<u64>) -> (r: isize)
    ensures
        result matches Some(a) ==> r == a as isize,
        result is None ==> r == (match current { Some(c) => c, None => 0 }) as isize,
{
    match result {
        Some(a) => {
            #[verifier::truncate]
            let v = a as isize;
            v
        },
        None => {
            #[verifier::truncate]
            let v = (match current { Some(c) => c, None => 0 }) as isize;
            v
        },
    }
}

/// The checks of `mmap`: a zero length is invalid; the flags must ask for
/// a shared or a private mapping; only anonymous mappings are supported.
/// Otherwise the memory manager is asked for `len` bytes near `addr` with
/// the known protection bits.
pub fn mmap_check(addr: u64, len: usize, prot: i32, flags: i32) -> (r: Result<(u64, usize, i32), isize>)
    ensures
        len == 0 ==> r == Err::<(u64, usize, i32), isize>(-EINVAL as isize),
        len != 0 && flags & (MAP_SHARED | MAP_PRIVATE) == 0 ==> r == Err::<(u64, usize, i32), isize>(-EINVAL as isize),
        len != 0 && flags & (MAP_SHARED | MAP_PRIVATE) != 0 && flags & MAP_ANONYMOUS == 0 ==> r == Err::<(u64, usize, i32), isize>(-EOPNOTSUPP as isize),
        len != 0 && flags & (MAP_SHARED | MAP_PRIVATE) != 0 && flags & MAP_ANONYMOUS != 0 ==>
            r == Ok::<(u64, usize, i32), isize>((addr, len, prot & (PROT_READ | PROT_WRITE | PROT_EXEC))),
{
    if len == 0 {
        return Err(-(EINVAL as isize));
    }
    if flags & (MAP_SHARED | MAP_PRIVATE) == 0 {
        return Err(-(EINVAL as isize));
    }
    if flags & MAP_ANONYMOUS == 0 {
        return Err(-(EOPNOTSUPP as isize));
    }
    Ok((addr, len, prot & (PROT_READ | PROT_WRITE | PROT_EXEC)))
}

/// What `mmap` returns for the memory manager's answer: the mapping's
/// address, or `MAP_FAILED`.
pub fn mmap_result(result: Option<u64>) -> (r: isize)
    ensures
        result matches Some(a) ==> r == a as isize,
        result is None ==> r == MAP_FAILED,
{
    match result {
        Some(a) => {
            #[verifier::truncate]
            let v = a as isize;
            v
        },
        None => MAP_FAILED,
    }
}

/// `munmap` of nothing succeeds at once (`Some(0)`); otherwise the memory
/// manager is asked (`None`).
pub fn munmap_check(len: usize) -> (r: Option<isize>)
    ensures
        len == 0 ==> r == Some(0isize),
        len != 0 ==> r is None,
{
    if len == 0 { Some(0) } else { None }
}

/// What `munmap` returns for the memory manager's answer.
pub fn munmap_result(ok: bool) -> (r: isize)
    ensures
        ok ==> r == 0,
        !ok ==> r == -EINVAL as isize,
{
    if ok { 0 } else { -(EINVAL as isize) }
}

/// `brk`: with `new_brk` 0 the current break (0 when the space has none);
/// otherwise the memory manager's answer to moving the break, `answer`:
/// the new break, or on failure the break as it was.
pub fn brk(current: Option<u64>, new_brk: u64, answer: Option<u64>) -> (r: isize)
    ensures
        new_brk == 0 ==> r == (match current { Some(c) => c, None => 0 }) as isize,
        new_brk != 0 ==> r == (match answer { Some(a) => a, None => match current { Some(c) => c, None => 0 } }) as isize,
{
    match brk_query(current, new_brk) {
        Some(v) => v,
        None => brk_result(current, answer),
    }
}

/// `mmap`: the argument checks of `mmap_check`; when they pass, what the
/// memory manager gave for the mapping it was asked for (`answer`): its
/// address, or `MAP_FAILED`.
pub fn mmap(addr: u64, len: usize, prot: i32, flags: i32, answer: Option<u64>) -> (r: isize)
    ensures
        len == 0 || flags & (MAP_SHARED | MAP_PRIVATE) == 0 ==> r == -EINVAL as isize,
        len != 0 && flags & (MAP_SHARED | MAP_PRIVATE) != 0 && flags & MAP_ANONYMOUS == 0 ==> r == -EOPNOTSUPP as isize,
        len != 0 && flags & (MAP_SHARED | MAP_PRIVATE) != 0 && flags & MAP_ANONYMOUS != 0 ==>
            r == match answer { Some(a) => a as isize, None => MAP_FAILED },
{
    match mmap_check(addr, len, prot, flags) {
        Err(e) => e,
        Ok(_) => mmap_result(answer),
    }
}

/// `munmap`: 0 for an empty range; otherwise 0 or `EINVAL` as the memory
/// manager succeeded (`unmapped`) or not.
pub fn munmap(len: usize, unmapped: bool) -> (r: isize)
    ensures
        len == 0 ==> r == 0,
        len != 0 ==> r == if unmapped { 0 } else { -EINVAL as isize },
{
    match munmap_check(len) {
        Some(v) => v,
        None => munmap_result(unmapped),
    }
}

} // verus!
