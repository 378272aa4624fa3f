//! System V shared memory: the segment registry and each process's attachments.

use vstd::prelude::*;
use std::collections::BTreeMap;
use vstd::std_specs::btree::spec_keys_iter;
use vstd::std_specs::iter::IteratorSpec;
use crate::errno::{EINVAL, ENOENT, EEXIST, ENOMEM, neg_errno};

verus! {

broadcast use vstd::std_specs::btree::group_btree_axioms;

pub const IPC_PRIVATE: i32 = 0;
pub const IPC_CREAT: i32 = 0o1000;
pub const IPC_EXCL: i32 = 0o2000;
pub const IPC_RMID: i32 = 0;
pub const IPC_STAT: i32 = 2;
pub const SHM_RDONLY: i32 = 0o10000;
pub const SHM_RND: i32 = 0o20000;
pub const SHM_REMAP: i32 = 0o40000;
pub const SHM_EXEC: i32 = 0o100000;
pub const SHM_PAGE_SIZE: usize = 4096;
/// Attach addresses are rounded down to this with `SHM_RND`.
pub const SHMLBA: usize = 4096;
/// The largest segment.
pub const SHMMAX: usize = 0x4000_0000;

/// One shared memory segment.
#[derive(Clone, Copy, Debug, PartialEq, Eq, Structural)]
pub struct ShmSegment {
    pub id: i32,
    pub key: i32,
    pub size: usize,
    /// Permission bits from `shmget`.
    pub mode: u32,
    pub cpid: i32,
    /// The process that attached or detached last.
    pub lpid: i32,
    /// How many attachments it has.
    pub nattch: u64,
    /// `IPC_RMID` was asked: it goes once the last attachment does.
    pub removed: bool,
}

impl ShmSegment {
    /// Its size in whole pages.
    pub open spec fn spec_pages(self) -> int {
        (self.size as int + SHM_PAGE_SIZE - 1) / SHM_PAGE_SIZE as int
    }
}

/// All segments, by id.
pub struct ShmRegistry {
    segs: BTreeMap<i32, ShmSegment>,
    next_id: i32,
}

/// What `shmget` gives, and the registry after it: the live segment with
/// the key when there is one (unless `IPC_CREAT | IPC_EXCL` asks for a new
/// one, or it is smaller than asked), else a new segment when the key is
/// private or `IPC_CREAT` is given and the size is allowed.
pub open spec fn shmget_outcome(m: Map<i32, ShmSegment>, next: i32, key: i32, size: usize, shmflg: i32, pid: i32)
    -> (Result<i32, i32>, Map<i32, ShmSegment>) {
    let make = key == IPC_PRIVATE || !(exists|id: i32| live_with_key(m, key, id));
    if !make {
        if shmflg & IPC_CREAT != 0 && shmflg & IPC_EXCL != 0 {
            (Err(EEXIST), m)
        } else {
            let id = choose|id: i32| live_with_key(m, key, id);
            if size > m[id].size { (Err(EINVAL), m) } else { (Ok(id), m) }
        }
    } else if key != IPC_PRIVATE && shmflg & IPC_CREAT == 0 {
        (Err(ENOENT), m)
    } else if size == 0 || size > SHMMAX {
        (Err(EINVAL), m)
    } else if next == i32::MAX {
        (Err(ENOMEM), m)
    } else {
        (Ok(next), m.insert(next, ShmSegment {
            id: next, key, size, mode: (shmflg & 0o777) as u32, cpid: pid, lpid: 0, nattch: 0, removed: false,
        }))
    }
}

/// The first segment with key `key` that is not removed.
pub open spec fn live_with_key(m: Map<i32, ShmSegment>, key: i32, id: i32) -> bool {
    m.contains_key(id) && m[id].key == key && !m[id].removed
}

impl ShmRegistry {
    pub closed spec fn view(&self) -> Map<i32, ShmSegment> {
        self.segs@
    }

    pub closed spec fn next(&self) -> i32 {
        self.next_id
    }

    /// Ids are the keys they are filed under; fresh ids are above all used
    /// ones; at most one live segment has a given (non-private) key.
    pub closed spec fn wf(&self) -> bool {
        &&& forall|i: i32| #[trigger] self.segs@.contains_key(i) ==> self.segs@[i].id == i && 0 <= i < self.next_id
        &&& self.next_id >= 0
        &&& forall|i: i32| #[trigger] self.segs@.contains_key(i) ==> self.segs@[i].size <= SHMMAX
        &&& forall|a: i32, b: i32| live_with_key(self.segs@, self.segs@[a].key, a) && self.segs@[a].key != IPC_PRIVATE
            && #[trigger] live_with_key(self.segs@, self.segs@[a].key, b) && #[trigger] self.segs@.contains_key(a) ==> a == b
    }

    pub fn new() -> (r: Self)
        ensures
            r.wf(),
            r@ == Map::<i32, ShmSegment>::empty(),
    {
        let r = ShmRegistry { segs: BTreeMap::new(), next_id: 0 };
        assert(r@ =~= Map::<i32, ShmSegment>::empty());
        r
    }

    /// The live segment with key `key`, if any.
    fn find_key(&self, key: i32) -> (r: Option<i32>)
        requires
            self.wf(),
            key != IPC_PRIVATE,
        ensures
            match r {
                Some(id) => live_with_key(self@, key, id),
                None => forall|id: i32| !#[trigger] live_with_key(self@, key, id),
            },
    {
        let mut i: i32 = 0;
        while i < self.next_id
            invariant
                self.wf(),
                0 <= i <= self.next_id,
                forall|id: i32| 0 <= id < i ==> !#[trigger] live_with_key(self@, key, id),
            decreases self.next_id - i,
        {
            match self.segs.get(&i) {
                Some(s) => if s.key == key && !s.removed {
                    return Some(i);
                },
                None => {},
            }
            i = i + 1;
        }
        None
    }

    /// `shmget`: the segment with key `key`, made when asked and missing.
    pub fn shmget_segment(&mut self, key: i32, size: usize, shmflg: i32, pid: i32) -> (r: Result<i32, i32>)
        requires
            old(self).wf(),
        ensures
            final(self).wf(),
            (r, final(self)@) == shmget_outcome(old(self)@, old(self).next(), key, size, shmflg, pid),
    {
        let found = if key != IPC_PRIVATE { self.find_key(key) } else { None };
        let ghost no_live = found is None && key != IPC_PRIVATE;
        assert(no_live ==> forall|x: i32| !#[trigger] live_with_key(self@, key, x));
        assert(self@ == old(self).segs@);
        if key != IPC_PRIVATE {
            if let Some(id) = found {
                if shmflg & IPC_CREAT != 0 && shmflg & IPC_EXCL != 0 {
                    return Err(EEXIST);
                }
                let s = *self.segs.get(&id).unwrap();
                assert forall|j: i32| #[trigger] live_with_key(old(self)@, key, j) implies j == id by {
                    assert(self.segs@.contains_key(id));
                    assert(self.segs@[id].key == key);
                }
                if size > s.size {
                    return Err(EINVAL);
                }
                return Ok(id);
            }
            if shmflg & IPC_CREAT == 0 {
                return Err(ENOENT);
            }
        }
        if size == 0 || size > SHMMAX {
            return Err(EINVAL);
        }
        if self.next_id == i32::MAX {
            return Err(ENOMEM);
        }
        let id = self.next_id;
        let seg = ShmSegment { id, key, size, mode: (shmflg & 0o777) as u32, cpid: pid, lpid: 0, nattch: 0, removed: false };
        self.segs.insert(id, seg);
        self.next_id = id + 1;
        proof {
            let os = old(self).segs@;
            let ns = self.segs@;
            assert forall|x: i32| #[trigger] ns.contains_key(x) && x != id implies os.contains_key(x) && ns[x] == os[x] by {
            }
            assert forall|a: i32, b: i32| live_with_key(ns, ns[a].key, a) && ns[a].key != IPC_PRIVATE
                && #[trigger] live_with_key(ns, ns[a].key, b) && #[trigger] ns.contains_key(a) implies a == b by {
                assert(ns.contains_key(b));
                if a != id && b != id {
                    assert(live_with_key(os, os[a].key, a));
                    assert(live_with_key(os, os[a].key, b));
                } else if a == id && b != id {
                    assert(ns[a].key == key);
                    assert(key != IPC_PRIVATE);
                    assert(live_with_key(os, key, b));
                    assert(false);
                } else if b == id && a != id {
                    assert(ns[b].key == key);
                    assert(key != IPC_PRIVATE);
                    assert(live_with_key(os, key, a));
                    assert(false);
                }
            }
        }
        Ok(id)
    }

    /// The live segment `id`.
    pub fn shm_segment(&self, id: i32) -> (r: Result<ShmSegment, i32>)
        ensures
            match r {
                Ok(s) => self@.contains_key(id) && s == self@[id] && !s.removed,
                Err(e) => e == EINVAL && !(self@.contains_key(id) && !self@[id].removed),
            },
    {
        match self.segs.get(&id) {
            Some(s) => if s.removed { Err(EINVAL) } else { Ok(*s) },
            None => Err(EINVAL),
        }
    }

    /// The registry after segment `id` loses or gains nothing but `s`: a
    /// removed segment with no attachment goes.
    pub open spec fn stored(m: Map<i32, ShmSegment>, id: i32, s: ShmSegment) -> Map<i32, ShmSegment> {
        if s.removed && s.nattch == 0 { m.remove(id) } else { m.insert(id, s) }
    }

    fn store(&mut self, id: i32, s: ShmSegment)
        requires
            old(self).wf(),
            old(self)@.contains_key(id),
            s.id == id,
            s.key == old(self)@[id].key,
            s.size == old(self)@[id].size,
            !old(self)@[id].removed ==> true,
            old(self)@[id].removed ==> s.removed,
        ensures
            final(self).wf(),
            final(self)@ == ShmRegistry::stored(old(self)@, id, s),
            final(self).next() == old(self).next(),
    {
        if s.removed && s.nattch == 0 {
            self.segs.remove(&id);
        } else {
            self.segs.insert(id, s);
        }
        proof {
            let os = old(self).segs@;
            let ns = self.segs@;
            assert forall|x: i32| #[trigger] ns.contains_key(x) implies os.contains_key(x) && ns[x].key == os[x].key
                && (!ns[x].removed ==> !os[x].removed) by {
            }
            assert forall|a: i32, b: i32| live_with_key(ns, ns[a].key, a) && ns[a].key != IPC_PRIVATE
                && #[trigger] live_with_key(ns, ns[a].key, b) && #[trigger] ns.contains_key(a) implies a == b by {
                assert(ns.contains_key(b));
                assert(live_with_key(os, os[a].key, a));
                assert(live_with_key(os, os[a].key, b));
            }
        }
    }

    /// `IPC_RMID`: marks segment `id` removed; it goes now if nothing is attached.
    pub fn shm_mark_removed(&mut self, id: i32) -> (r: Result<(), i32>)
        requires
            old(self).wf(),
        ensures
            final(self).wf(),
            match old(self).shm_live(id) {
                false => r == Err::<(), i32>(EINVAL) && final(self)@ == old(self)@,
                true => r is Ok && final(self)@ == ShmRegistry::stored(old(self)@, id,
                    ShmSegment { removed: true, ..old(self)@[id] }),
            },
    {
        let s = match self.shm_segment(id) {
            Err(e) => return Err(e),
            Ok(s) => s,
        };
        self.store(id, ShmSegment { removed: true, ..s });
        Ok(())
    }

    /// Segment `id` exists and is not removed.
    pub open spec fn shm_live(&self, id: i32) -> bool {
        self@.contains_key(id) && !self@[id].removed
    }

    /// Counts an attachment of segment `id` by `pid`.
    pub fn mark_attached(&mut self, id: i32, pid: i32)
        requires
            old(self).wf(),
            old(self)@.contains_key(id),
            old(self)@[id].nattch < u64::MAX,
        ensures
            final(self).wf(),
            final(self)@ == old(self)@.insert(id, ShmSegment { nattch: (old(self)@[id].nattch + 1) as u64,
                lpid: pid, ..old(self)@[id] }),
    {
        let s = *self.segs.get(&id).unwrap();
        self.store(id, ShmSegment { nattch: s.nattch + 1, lpid: pid, ..s });
    }

    /// Drops an attachment of segment `id` by `pid`; a removed segment with
    /// no attachment left goes.
    pub fn shm_detach_segment(&mut self, id: i32, pid: i32)
        requires
            old(self).wf(),
        ensures
            final(self).wf(),
            old(self)@.contains_key(id) ==> final(self)@ == ShmRegistry::stored(old(self)@, id, ShmSegment {
                nattch: if old(self)@[id].nattch > 0 { (old(self)@[id].nattch - 1) as u64 } else { 0 },
                lpid: pid, ..old(self)@[id] }),
            !old(self)@.contains_key(id) ==> final(self)@ == old(self)@,
    {
        match self.segs.get(&id) {
            None => {},
            Some(s) => {
                let s = *s;
                let n = if s.nattch > 0 { s.nattch - 1 } else { 0 };
                self.store(id, ShmSegment { nattch: n, lpid: pid, ..s });
            },
        }
    }
}

/// One attachment of a segment in a process.
#[derive(Clone, Copy, Debug, PartialEq, Eq, Structural)]
pub struct ShmAttachment {
    pub addr: usize,
    pub len: usize,
    pub shmid: i32,
}

/// Where `shmat` maps a segment and how.
#[derive(Clone, Copy, Debug, PartialEq, Eq, Structural)]
pub struct ShmatPlan {
    pub shmid: i32,
    pub start: usize,
    pub len: usize,
    pub readonly: bool,
    pub executable: bool,
    /// Unmap what is there first.
    pub remap: bool,
}


/// The address `shmat` attaches at: the free region for a null address,
/// the address rounded down to `SHMLBA` under `SHM_RND`, else the address.
pub open spec fn shmat_start(shmaddr: usize, shmflg: i32, free_region: Option<usize>) -> int {
    if shmaddr == 0 { free_region->Some_0 as int }
    else if shmflg & SHM_RND != 0 { shmaddr - shmaddr % SHMLBA }
    else { shmaddr as int }
}

/// `shmat` plans an attachment: known flags, no `SHM_REMAP` without an
/// address, a live segment, a free region when no address is given, a
/// page-aligned address when it is not rounded, and a range that fits.
pub open spec fn shmat_succeeds(reg: &ShmRegistry, shmid: i32, shmaddr: usize, shmflg: i32,
    free_region: Option<usize>) -> bool {
    &&& shmflg & !(SHM_RDONLY | SHM_RND | SHM_REMAP | SHM_EXEC) == 0
    &&& !(shmflg & SHM_REMAP != 0 && shmaddr == 0)
    &&& reg.shm_live(shmid)
    &&& (shmaddr == 0 ==> free_region is Some)
    &&& (shmaddr != 0 && shmflg & SHM_RND == 0 ==> shmaddr % SHM_PAGE_SIZE == 0)
    &&& shmat_start(shmaddr, shmflg, free_region) + reg@[shmid].spec_pages() * SHM_PAGE_SIZE <= usize::MAX
}

/// The first half of `shmat`: checks the flags and the segment and picks
/// the address; `free_region` is where the address space has room for the
/// segment when no address is given. The caller maps the segment there,
/// then calls `shmat_commit`.
pub fn shmat(reg: &ShmRegistry, shmid: i32, shmaddr: usize, shmflg: i32, free_region: Option<usize>)
    -> (r: Result<ShmatPlan, isize>)
    requires
        reg.wf(),
    ensures
        shmflg & !(SHM_RDONLY | SHM_RND | SHM_REMAP | SHM_EXEC) != 0 ==> r == Err::<ShmatPlan, isize>(neg_errno(EINVAL)),
        shmflg & !(SHM_RDONLY | SHM_RND | SHM_REMAP | SHM_EXEC) == 0 && shmflg & SHM_REMAP != 0 && shmaddr == 0
            ==> r == Err::<ShmatPlan, isize>(neg_errno(EINVAL)),
        r matches Ok(p) ==> {
            &&& reg.shm_live(shmid)
            &&& p.shmid == shmid
            &&& p.len == reg@[shmid].spec_pages() * SHM_PAGE_SIZE
            &&& p.readonly == (shmflg & SHM_RDONLY != 0)
            &&& p.executable == (shmflg & SHM_EXEC != 0)
            &&& p.remap == (shmflg & SHM_REMAP != 0)
            &&& p.start + p.len <= usize::MAX
            &&& p.start == if shmaddr == 0 { free_region->Some_0 }
                else if shmflg & SHM_RND != 0 { (shmaddr - shmaddr % SHMLBA) as usize }
                else { shmaddr }
            &&& shmaddr != 0 && shmflg & SHM_RND == 0 ==> shmaddr % SHM_PAGE_SIZE == 0
        },
        !reg.shm_live(shmid) && shmflg & !(SHM_RDONLY | SHM_RND | SHM_REMAP | SHM_EXEC) == 0
            && !(shmflg & SHM_REMAP != 0 && shmaddr == 0) ==> r == Err::<ShmatPlan, isize>(neg_errno(EINVAL)),
        reg.shm_live(shmid) && shmaddr == 0 && free_region is None && shmflg & !(SHM_RDONLY | SHM_RND | SHM_REMAP | SHM_EXEC) == 0
            && shmflg & SHM_REMAP == 0 ==> r == Err::<ShmatPlan, isize>(neg_errno(ENOMEM)),
        r is Ok <==> shmat_succeeds(reg, shmid, shmaddr, shmflg, free_region),
        r matches Err(e) ==> e == neg_errno(EINVAL) || (e == neg_errno(ENOMEM) && shmaddr == 0 && free_region is None),
{
    if shmflg & !(SHM_RDONLY | SHM_RND | SHM_REMAP | SHM_EXEC) != 0 {
        return Err(-(EINVAL as isize));
    }
    if shmflg & SHM_REMAP != 0 && shmaddr == 0 {
        return Err(-(EINVAL as isize));
    }
    let readonly = shmflg & SHM_RDONLY != 0;
    let seg = match reg.shm_segment(shmid) {
        Err(e) => return Err(-(e as isize)),
        Ok(s) => s,
    };
    let pages = seg.size / SHM_PAGE_SIZE + if seg.size % SHM_PAGE_SIZE != 0 { 1 } else { 0 };
    assert(pages == seg.spec_pages());
    assert(seg.size <= SHMMAX);
    assert(pages <= 0x40001);
    if pages > usize::MAX / SHM_PAGE_SIZE {
        return Err(-(EINVAL as isize));
    }
    let len = pages * SHM_PAGE_SIZE;
    let start = if shmaddr == 0 {
        match free_region {
            Some(a) => a,
            None => return Err(-(ENOMEM as isize)),
        }
    } else if shmflg & SHM_RND != 0 {
        shmaddr - shmaddr % SHMLBA
    } else if shmaddr % SHM_PAGE_SIZE != 0 {
        return Err(-(EINVAL as isize));
    } else {
        shmaddr
    };
    if start > usize::MAX - len {
        return Err(-(EINVAL as isize));
    }
    Ok(ShmatPlan { shmid, start, len, readonly, executable: shmflg & SHM_EXEC != 0, remap: shmflg & SHM_REMAP != 0 })
}

/// The second half of `shmat`, once the segment is mapped: records the
/// attachment (dropping one that was at the same address) and counts it.
pub fn shmat_commit(reg: &mut ShmRegistry, atts: &mut BTreeMap<usize, ShmAttachment>, pid: i32, plan: ShmatPlan)
    -> (r: isize)
    requires
        old(reg).wf(),
        old(reg)@.contains_key(plan.shmid),
        old(reg)@[plan.shmid].nattch < u64::MAX - 1,
        plan.start <= isize::MAX,
    ensures
        final(reg).wf(),
        r == plan.start,
        final(atts)@ == old(atts)@.insert(plan.start, ShmAttachment { addr: plan.start, len: plan.len, shmid: plan.shmid }),
{
    match atts.remove(&plan.start) {
        Some(old_att) => {
            reg.shm_detach_segment(old_att.shmid, pid);
        },
        None => {},
    }
    if reg.segs.contains_key(&plan.shmid) {
        let s = *reg.segs.get(&plan.shmid).unwrap();
        if s.nattch < u64::MAX {
            reg.mark_attached(plan.shmid, pid);
        }
    }
    atts.insert(plan.start, ShmAttachment { addr: plan.start, len: plan.len, shmid: plan.shmid });
    assert(atts@ =~= old(atts)@.insert(plan.start, ShmAttachment { addr: plan.start, len: plan.len, shmid: plan.shmid }));
    plan.start as isize
}

/// The first half of `shmdt`: takes the attachment at `addr` off the
/// process's table (the caller then unmaps it and calls `shmdt_finish`).
pub fn shmdt(atts: &mut BTreeMap<usize, ShmAttachment>, addr: usize) -> (r: Result<ShmAttachment, isize>)
    ensures
        addr % SHM_PAGE_SIZE != 0 ==> r == Err::<ShmAttachment, isize>(neg_errno(EINVAL)) && final(atts)@ == old(atts)@,
        addr % SHM_PAGE_SIZE == 0 && !old(atts)@.contains_key(addr) ==> r == Err::<ShmAttachment, isize>(neg_errno(EINVAL))
            && final(atts)@ == old(atts)@,
        addr % SHM_PAGE_SIZE == 0 && old(atts)@.contains_key(addr) ==> r == Ok::<ShmAttachment, isize>(old(atts)@[addr])
            && final(atts)@ == old(atts)@.remove(addr),
{
    if addr % SHM_PAGE_SIZE != 0 {
        return Err(-(EINVAL as isize));
    }
    match atts.remove(&addr) {
        Some(a) => Ok(a),
        None => Err(-(EINVAL as isize)),
    }
}

/// The second half of `shmdt`: when the unmap failed the attachment goes
/// back and the call fails; else the segment loses the attachment.
pub fn shmdt_finish(reg: &mut ShmRegistry, atts: &mut BTreeMap<usize, ShmAttachment>, pid: i32, att: ShmAttachment,
    unmapped: bool) -> (r: isize)
    requires
        old(reg).wf(),
    ensures
        final(reg).wf(),
        !unmapped ==> r == -(EINVAL as isize) && final(atts)@ == old(atts)@.insert(att.addr, att) && final(reg)@ == old(reg)@,
        unmapped ==> r == 0 && final(atts)@ == old(atts)@ && final(reg)@ == detach_step(old(reg)@, att.shmid, pid),
{
    if !unmapped {
        atts.insert(att.addr, att);
        return -(EINVAL as isize);
    }
    reg.shm_detach_segment(att.shmid, pid);
    0
}

/// The segments after one attachment of segment `id` by `pid` goes away:
/// one attachment fewer, `pid` the last to touch it, and a segment marked
/// for removal goes with its last attachment.
pub open spec fn detach_step(m: Map<i32, ShmSegment>, id: i32, pid: i32) -> Map<i32, ShmSegment> {
    if m.contains_key(id) {
        ShmRegistry::stored(m, id, ShmSegment {
            nattch: if m[id].nattch > 0 { (m[id].nattch - 1) as u64 } else { 0 },
            lpid: pid, ..m[id] })
    } else {
        m
    }
}

/// The segments after the attachments `s` go away, in order.
pub open spec fn detach_fold(m: Map<i32, ShmSegment>, s: Seq<ShmAttachment>, pid: i32) -> Map<i32, ShmSegment>
    decreases s.len(),
{
    if s.len() == 0 { m } else { detach_step(detach_fold(m, s.drop_last(), pid), s.last().shmid, pid) }
}

/// Takes every attachment off the process's table, lowest address first,
/// and counts each one off its segment (the caller unmaps them).
pub fn detach_all_shm(reg: &mut ShmRegistry, atts: &mut BTreeMap<usize, ShmAttachment>, pid: i32)
    -> (r: Vec<ShmAttachment>)
    requires
        old(reg).wf(),
    ensures
        final(reg).wf(),
        final(atts)@ == Map::<usize, ShmAttachment>::empty(),
        forall|a: usize| old(atts)@.contains_key(a) ==> r@.contains(old(atts)@[a]),
        r@.len() == old(atts)@.dom().len(),
        final(reg)@ == detach_fold(old(reg)@, r@, pid),
{
    let mut out: Vec<ShmAttachment> = Vec::new();
    proof { assert(detach_fold(reg@, out@, pid) == reg@); }
    let ghost orig = atts@;
    let keys: Vec<usize> = collect_keys(atts);
    assert forall|a: usize| orig.contains_key(a) <==> keys@.contains(a) by {
        if keys@.contains(a) { assert(keys@.to_set().contains(a)); }
        if orig.contains_key(a) { assert(keys@.to_set().contains(a)); }
    }
    let mut i: usize = 0;
    while i < keys.len()
        invariant
            reg.wf(),
            0 <= i <= keys@.len(),
            forall|a: usize| orig.contains_key(a) <==> keys@.contains(a),
            forall|j: int| i <= j < keys@.len() ==> atts@.contains_key(keys@[j]) && atts@[keys@[j]] == orig[keys@[j]],
            forall|a: usize| #[trigger] atts@.contains_key(a) ==> orig.contains_key(a),
            forall|j: int| 0 <= j < i ==> !atts@.contains_key(keys@[j]) && out@.contains(orig[keys@[j]]),
            keys@.no_duplicates(),
            out@.len() == i,
            reg@ == detach_fold(old(reg)@, out@, pid),
        decreases keys@.len() - i,
    {
        let k = keys[i];
        let ghost before = atts@;
        let ghost out0 = out@;
        let a = atts.remove(&k).unwrap();
        reg.shm_detach_segment(a.shmid, pid);
        out.push(a);
        proof {
            assert(out@.drop_last() =~= out0);
            assert(reg@ == detach_fold(old(reg)@, out@, pid));
            assert forall|j: int| 0 <= j < i + 1 implies !atts@.contains_key(keys@[j]) && out@.contains(orig[keys@[j]]) by {
                if j < i {
                    assert(out0.contains(orig[keys@[j]]));
                    let m = choose|m: int| 0 <= m < out0.len() && out0[m] == orig[keys@[j]];
                    assert(out@[m] == out0[m]);
                } else {
                    assert(out@[out@.len() - 1] == a);
                }
            }
            assert forall|j: int| i + 1 <= j < keys@.len() implies atts@.contains_key(keys@[j]) && atts@[keys@[j]] == orig[keys@[j]] by {
                assert(keys@[j] != keys@[i as int]);
            }
        }
        i = i + 1;
    }
    assert(atts@ =~= Map::<usize, ShmAttachment>::empty()) by {
        assert forall|a: usize| !atts@.contains_key(a) by {
            if atts@.contains_key(a) {
                assert(keys@.contains(a));
            }
        }
    }
    assert forall|a: usize| orig.contains_key(a) implies out@.contains(orig[a]) by {
        assert(keys@.contains(a));
    }
    proof {
        keys@.unique_seq_to_set();
    }
    out
}

/// The addresses of the attachments, in increasing order.
fn collect_keys(atts: &BTreeMap<usize, ShmAttachment>) -> (r: Vec<usize>)
    ensures
        r@.to_set() == atts@.dom(),
        r@.no_duplicates(),
{
    let mut v: Vec<usize> = Vec::new();
    let ghost ks = spec_keys_iter(atts).remaining().unref();
    for k in it: atts.keys()
        invariant
            it.seq().unref() == ks,
            v@ == ks.take(it.index() as int),
    {
        proof {
            assert(ks.take(it.index() as int).push(*k) =~= ks.take(it.index() + 1));
        }
        v.push(*k);
    }
    assert(v@ =~= ks);
    v
}


/// `shmget`: the id of the segment, or the negated errno.
pub fn shmget(reg: &mut ShmRegistry, key: i32, size: usize, shmflg: i32, pid: i32) -> (r: isize)
    requires
        old(reg).wf(),
    ensures
        final(reg).wf(),
        r == match shmget_outcome(old(reg)@, old(reg).next(), key, size, shmflg, pid).0 {
            Ok(id) => id as isize,
            Err(e) => neg_errno(e),
        },
{
    match reg.shmget_segment(key, size, shmflg, pid) {
        Ok(id) => id as isize,
        Err(e) => -(e as isize),
    }
}

/// What `shmctl` does: the value it returns and, for `IPC_STAT`, the
/// segment whose description goes to the user buffer.
pub fn shmctl(reg: &mut ShmRegistry, shmid: i32, cmd: i32, buf_null: bool) -> (r: (isize, Option<ShmSegment>))
    requires
        old(reg).wf(),
    ensures
        final(reg).wf(),
        cmd == IPC_STAT ==> *final(reg) == *old(reg) && if buf_null {
            r == (neg_errno(crate::errno::EFAULT), None::<ShmSegment>)
        } else if old(reg).shm_live(shmid) {
            r == (0isize, Some(old(reg)@[shmid]))
        } else {
            r == (neg_errno(EINVAL), None::<ShmSegment>)
        },
        cmd == IPC_RMID ==> r.1 is None && if old(reg).shm_live(shmid) {
            r.0 == 0 && final(reg)@ == ShmRegistry::stored(old(reg)@, shmid, ShmSegment { removed: true, ..old(reg)@[shmid] })
        } else {
            r.0 == neg_errno(EINVAL) && final(reg)@ == old(reg)@
        },
        cmd != IPC_STAT && cmd != IPC_RMID ==> r == (neg_errno(EINVAL), None::<ShmSegment>) && *final(reg) == *old(reg),
{
    if cmd == IPC_STAT {
        if buf_null {
            return (-(crate::errno::EFAULT as isize), None);
        }
        return match reg.shm_segment(shmid) {
            Ok(s) => (0, Some(s)),
            Err(e) => (-(e as isize), None),
        };
    }
    if cmd == IPC_RMID {
        return match reg.shm_mark_removed(shmid) {
            Ok(()) => (0, None),
            Err(e) => (-(e as isize), None),
        };
    }
    (-(EINVAL as isize), None)
}

} // verus!
