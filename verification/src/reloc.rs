//! Applying the relocations of a static position-independent executable to
//! its loaded image.

use vstd::prelude::*;
use crate::exec_loader::{ExecImageError, PagingError, Phdr, PT_DYNAMIC, le, le_u64, LoadPlan, SegmentMap};
use crate::syscall::ifaddrs::le64;

verus! {

pub const DT_NULL: i64 = 0;
pub const DT_SYMTAB: i64 = 6;
pub const DT_RELA: i64 = 7;
pub const DT_RELASZ: i64 = 8;
pub const DT_RELAENT: i64 = 9;
pub const DT_SYMENT: i64 = 11;
pub const R_RISCV_64: u32 = 2;
pub const R_RISCV_RELATIVE: u32 = 3;

/// The loaded image as user memory: the bytes from address `base` on.
pub struct UserImage {
    pub base: u64,
    pub bytes: Vec<u8>,
}

/// The word at user address `addr`, when all eight bytes are mapped.
pub open spec fn read_word(m: Seq<u8>, base: u64, addr: int) -> Option<u64> {
    if base <= addr && addr + 8 <= base + m.len() {
        Some(le(m, addr - base, 8) as u64)
    } else {
        None
    }
}

/// The memory after writing `v` at user address `addr` (mapped).
pub open spec fn write_word(m: Seq<u8>, base: u64, addr: int, v: u64) -> Seq<u8> {
    let o = addr - base;
    m.subrange(0, o) + le64(v) + m.subrange(o + 8, m.len() as int)
}

/// The error for an address outside the image.
pub open spec fn not_mapped() -> ExecImageError {
    ExecImageError::Paging(PagingError::InvalidAddress)
}

/// What the dynamic section says about the relocations: the table, its
/// size and entry size, the symbol table and its entry size.
#[derive(Clone, Copy, Debug, PartialEq, Eq, Structural)]
pub struct DynInfo {
    pub rela: u64,
    pub relasz: u64,
    pub relaent: u64,
    pub symtab: u64,
    pub syment: u64,
}

pub open spec fn dyn_update(d: DynInfo, tag: i64, val: u64) -> DynInfo {
    if tag == DT_RELA { DynInfo { rela: val, ..d } }
    else if tag == DT_RELASZ { DynInfo { relasz: val, ..d } }
    else if tag == DT_RELAENT { DynInfo { relaent: val, ..d } }
    else if tag == DT_SYMTAB { DynInfo { symtab: val, ..d } }
    else if tag == DT_SYMENT { DynInfo { syment: val, ..d } }
    else { d }
}

/// Reads the dynamic entries (tag and value words) from `addr` up to
/// `end`, stopping at `DT_NULL`.
pub open spec fn scan_dyn(m: Seq<u8>, base: u64, addr: int, end: int, d: DynInfo) -> Result<DynInfo, ExecImageError>
    decreases end - addr,
{
    if addr + 16 > end {
        Ok(d)
    } else {
        match read_word(m, base, addr) {
            None => Err(not_mapped()),
            Some(tag) => match read_word(m, base, addr + 8) {
                None => Err(not_mapped()),
                Some(val) => if tag as i64 == DT_NULL {
                    Ok(d)
                } else {
                    scan_dyn(m, base, addr + 16, end, dyn_update(d, tag as i64, val))
                },
            },
        }
    }
}

pub open spec fn dyn_default() -> DynInfo {
    DynInfo { rela: 0, relasz: 0, relaent: 24, symtab: 0, syment: 24 }
}

/// The value relocation `i` stores, and where: `None` for an invalid
/// relocation, `Some(Err)` when memory it reads is not mapped.
pub open spec fn reloc_value(m: Seq<u8>, base: u64, bias: u64, d: DynInfo, i: int) -> Result<(int, u64), ExecImageError> {
    let r = bias + d.rela + i * d.relaent;
    match (read_word(m, base, r), read_word(m, base, r + 8), read_word(m, base, r + 16)) {
        (Some(off), Some(info), Some(addend)) => {
            let rtype = info % 0x1_0000_0000;
            let sym = info / 0x1_0000_0000;
            let target = bias + off;
            if rtype == R_RISCV_RELATIVE {
                Ok((target, wrap(bias as int + (addend as i64) as int)))
            } else if rtype == R_RISCV_64 {
                if d.symtab == 0 {
                    Err(ExecImageError::InvalidElf)
                } else {
                    match read_word(m, base, bias + d.symtab + sym * d.syment + 8) {
                        None => Err(not_mapped()),
                        Some(st) => Ok((target, wrap(bias + st + (addend as i64) as int))),
                    }
                }
            } else {
                Err(ExecImageError::InvalidElf)
            }
        },
        _ => Err(not_mapped()),
    }
}

/// `v` modulo 2^64.
pub open spec fn wrap(v: int) -> u64 {
    (v % 0x1_0000_0000_0000_0000) as u64
}

/// The memory after the first `n` relocations.
pub open spec fn relocs_upto(m: Seq<u8>, base: u64, bias: u64, d: DynInfo, n: int) -> Result<Seq<u8>, ExecImageError>
    decreases n,
{
    if n <= 0 {
        Ok(m)
    } else {
        match relocs_upto(m, base, bias, d, n - 1) {
            Err(e) => Err(e),
            Ok(m1) => match reloc_value(m1, base, bias, d, n - 1) {
                Err(e) => Err(e),
                Ok((target, v)) => if read_word(m1, base, target) is Some {
                    Ok(write_word(m1, base, target, v))
                } else {
                    Err(not_mapped())
                },
            },
        }
    }
}

/// The first dynamic program header, by position.
pub open spec fn first_dynamic(phdrs: Seq<Phdr>, i: int) -> bool {
    &&& 0 <= i < phdrs.len()
    &&& phdrs[i].p_type == PT_DYNAMIC
    &&& forall|j: int| 0 <= j < i ==> (#[trigger] phdrs[j]).p_type != PT_DYNAMIC
}

/// The image after relocating it by `bias`, as `apply_static_pie_relocs`
/// leaves it: unchanged without a dynamic segment or without relocations;
/// a zero entry size is invalid.
pub open spec fn relocated(m: Seq<u8>, base: u64, phdrs: Seq<Phdr>, bias: u64) -> Result<Seq<u8>, ExecImageError> {
    if forall|j: int| 0 <= j < phdrs.len() ==> (#[trigger] phdrs[j]).p_type != PT_DYNAMIC {
        Ok(m)
    } else {
        let i = choose|i: int| first_dynamic(phdrs, i);
        let start = bias + phdrs[i].p_vaddr;
        match scan_dyn(m, base, start, start + phdrs[i].p_memsz, dyn_default()) {
            Err(e) => Err(e),
            Ok(d) => if d.rela == 0 || d.relasz == 0 {
                Ok(m)
            } else if d.relaent == 0 || d.syment == 0 {
                Err(ExecImageError::InvalidElf)
            } else {
                relocs_upto(m, base, bias, d, (d.relasz / d.relaent) as int)
            },
        }
    }
}

impl UserImage {
    /// The word at `addr`, or `InvalidAddress`.
    pub fn read_u64_at(&self, addr: u64) -> (r: Result<u64, ExecImageError>)
        ensures
            match read_word(self.bytes@, self.base, addr as int) {
                Some(w) => r == Ok::<u64, ExecImageError>(w),
                None => r == Err::<u64, ExecImageError>(not_mapped()),
            },
    {
        if addr < self.base || addr - self.base > self.bytes.len() as u64 || self.bytes.len() as u64 - (addr - self.base) < 8 {
            return Err(ExecImageError::Paging(PagingError::InvalidAddress));
        }
        let o = (addr - self.base) as usize;
        Ok(le_u64(self.bytes.as_slice(), o))
    }

    /// Writes `v` at `addr`, or gives `InvalidAddress`.
    pub fn write_u64_at(&mut self, addr: u64, v: u64) -> (r: Result<(), ExecImageError>)
        ensures
            final(self).base == old(self).base,
            final(self).bytes@.len() == old(self).bytes@.len(),
            match read_word(old(self).bytes@, old(self).base, addr as int) {
                Some(_w) => r is Ok && final(self).bytes@ == write_word(old(self).bytes@, old(self).base, addr as int, v),
                None => r == Err::<(), ExecImageError>(not_mapped()) && final(self).bytes@ == old(self).bytes@,
            },
    {
        let n = self.bytes.len();
        if addr < self.base || addr - self.base > n as u64 || n as u64 - (addr - self.base) < 8 {
            return Err(ExecImageError::Paging(PagingError::InvalidAddress));
        }
        let o = (addr - self.base) as usize;
        let mut w: Vec<u8> = Vec::new();
        crate::syscall::ifaddrs::le64_exec(v, &mut w);
        proof { assert(w@ =~= le64(v)); }
        let ghost m0 = self.bytes@;
        let mut j: usize = 0;
        while j < 8
            invariant
                self.base == old(self).base,
                m0 == old(self).bytes@,
                o == addr - self.base,
                n == self.bytes@.len(),
                o + 8 <= n,
                j <= 8,
                w@ == le64(v),
                self.bytes@.len() == m0.len(),
                forall|x: int| 0 <= x < n && !(o <= x < o + j) ==> self.bytes@[x] == m0[x],
                forall|x: int| o <= x < o + j ==> self.bytes@[x] == le64(v)[x - o],
            decreases 8 - j,
        {
            self.bytes.set(o + j, w[j]);
            j = j + 1;
        }
        proof {
            assert(self.bytes@ =~= write_word(m0, self.base, addr as int, v));
        }
        Ok(())
    }
}

fn find_dynamic(phdrs: &[Phdr]) -> (r: Option<usize>)
    ensures
        r matches Some(i) ==> first_dynamic(phdrs@, i as int),
        r is None ==> forall|j: int| 0 <= j < phdrs@.len() ==> (#[trigger] phdrs@[j]).p_type != PT_DYNAMIC,
{
    let mut i: usize = 0;
    while i < phdrs.len()
        invariant
            i <= phdrs@.len(),
            forall|j: int| 0 <= j < i ==> (#[trigger] phdrs@[j]).p_type != PT_DYNAMIC,
        decreases phdrs@.len() - i,
    {
        if phdrs[i].p_type == PT_DYNAMIC {
            return Some(i);
        }
        i = i + 1;
    }
    None
}

/// `a + b`, or `None` past the address space.
fn add_addr(a: u64, b: u64) -> (r: Option<u64>)
    ensures
        a + b <= u64::MAX ==> r == Some((a + b) as u64),
        a + b > u64::MAX ==> r is None,
{
    a.checked_add(b)
}

/// The word at user address `addr` (which may lie beyond 64 bits).
fn read_at(img: &UserImage, addr: u128) -> (r: Result<u64, ExecImageError>)
    requires
        img.base + img.bytes@.len() <= u64::MAX,
    ensures
        match read_word(img.bytes@, img.base, addr as int) {
            Some(w) => r == Ok::<u64, ExecImageError>(w),
            None => r == Err::<u64, ExecImageError>(not_mapped()),
        },
{
    if addr > u64::MAX as u128 {
        return Err(ExecImageError::Paging(PagingError::InvalidAddress));
    }
    img.read_u64_at(addr as u64)
}

/// `v` modulo 2^64 for `v` not below -2^64.
fn wrap_exec(v: i128) -> (r: u64)
    requires
        v >= -0x1_0000_0000_0000_0000,
        v < 0x1_0000_0000_0000_0000_0000,
    ensures
        r == wrap(v as int),
{
    let w: i128 = v + 0x1_0000_0000_0000_0000i128;
    let m: i128 = w % 0x1_0000_0000_0000_0000i128;
    proof {
        assert((v as int + 0x1_0000_0000_0000_0000) % 0x1_0000_0000_0000_0000 == (v as int) % 0x1_0000_0000_0000_0000);
    }
    m as u64
}

/// Reads the dynamic section from `start` up to `end`.
fn scan_dynamic(img: &UserImage, start: u128, end: u128) -> (r: Result<DynInfo, ExecImageError>)
    requires
        start <= end,
        end <= 0x4_0000_0000_0000_0000,
        img.base + img.bytes@.len() <= u64::MAX,
    ensures
        r == scan_dyn(img.bytes@, img.base, start as int, end as int, dyn_default()),
{
    let mut d = DynInfo { rela: 0, relasz: 0, relaent: 24, symtab: 0, syment: 24 };
    let mut addr = start;
    while addr + 16 <= end
        invariant
            addr <= end,
            end <= 0x4_0000_0000_0000_0000,
            img.base + img.bytes@.len() <= u64::MAX,
            scan_dyn(img.bytes@, img.base, addr as int, end as int, d) == scan_dyn(img.bytes@, img.base, start as int, end as int, dyn_default()),
        decreases end - addr,
    {
        let tag = match read_at(img, addr) {
            Ok(t) => t,
            Err(e) => return Err(e),
        };
        let val = match read_at(img, addr + 8) {
            Ok(v) => v,
            Err(e) => return Err(e),
        };
        #[verifier::truncate]
        let t = tag as i64;
        if t == DT_NULL {
            return Ok(d);
        }
        d = if t == DT_RELA { DynInfo { rela: val, ..d } }
            else if t == DT_RELASZ { DynInfo { relasz: val, ..d } }
            else if t == DT_RELAENT { DynInfo { relaent: val, ..d } }
            else if t == DT_SYMTAB { DynInfo { symtab: val, ..d } }
            else if t == DT_SYMENT { DynInfo { syment: val, ..d } }
            else { d };
        addr = addr + 16;
    }
    Ok(d)
}

/// Once a relocation fails, every longer prefix fails the same way.
proof fn lemma_relocs_err_sticky(m: Seq<u8>, base: u64, bias: u64, d: DynInfo, a: int, b: int)
    requires
        0 <= a <= b,
        relocs_upto(m, base, bias, d, a) is Err,
    ensures
        relocs_upto(m, base, bias, d, b) == relocs_upto(m, base, bias, d, a),
    decreases b - a,
{
    if a < b {
        lemma_relocs_err_sticky(m, base, bias, d, a, b - 1);
    }
}

/// Applies relocation `k` to the image.
fn apply_one(img: &mut UserImage, bias: u64, d: DynInfo, k: u64) -> (r: Result<(), ExecImageError>)
    requires
        old(img).base + old(img).bytes@.len() <= u64::MAX,
        d.relaent > 0,
        k * d.relaent <= d.relasz,
    ensures
        final(img).base == old(img).base,
        final(img).bytes@.len() == old(img).bytes@.len(),
        match reloc_value(old(img).bytes@, old(img).base, bias, d, k as int) {
            Err(e) => r == Err::<(), ExecImageError>(e),
            Ok((target, v)) => if read_word(old(img).bytes@, old(img).base, target) is Some {
                r is Ok && final(img).bytes@ == write_word(old(img).bytes@, old(img).base, target, v)
            } else {
                r == Err::<(), ExecImageError>(not_mapped())
            },
        },
{
    let rbase: u128 = bias as u128 + d.rela as u128 + (k as u128) * (d.relaent as u128);
    let off = match read_at(img, rbase) { Ok(v) => v, Err(e) => return Err(e) };
    let info = match read_at(img, rbase + 8) { Ok(v) => v, Err(e) => return Err(e) };
    let add_raw = match read_at(img, rbase + 16) { Ok(v) => v, Err(e) => return Err(e) };
    #[verifier::truncate]
    let addend = add_raw as i64;
    let rtype = info % 0x1_0000_0000;
    let sym = info / 0x1_0000_0000;
    let target: u128 = bias as u128 + off as u128;
    let value: u64 = if rtype == R_RISCV_RELATIVE as u64 {
        wrap_exec(bias as i128 + addend as i128)
    } else if rtype == R_RISCV_64 as u64 {
        if d.symtab == 0 {
            return Err(ExecImageError::InvalidElf);
        }
        proof {
            assert(sym * d.syment <= 0xffff_ffff * 0xffff_ffff_ffff_ffff) by (nonlinear_arith)
                requires sym <= 0xffff_ffff, d.syment <= 0xffff_ffff_ffff_ffff;
        }
        let sym_addr: u128 = bias as u128 + d.symtab as u128 + (sym as u128) * (d.syment as u128) + 8;
        let st = match read_at(img, sym_addr) { Ok(v) => v, Err(e) => return Err(e) };
        wrap_exec(bias as i128 + st as i128 + addend as i128)
    } else {
        return Err(ExecImageError::InvalidElf);
    };
    if target > u64::MAX as u128 {
        return Err(ExecImageError::Paging(PagingError::InvalidAddress));
    }
    img.write_u64_at(target as u64, value)
}

/// Applies the relocations of a static position-independent executable
/// loaded at `bias`: the `RELA` table named by the first dynamic segment is
/// walked in order; a relative relocation stores `bias + addend`, a 64-bit
/// one the biased symbol value plus the addend; any other type, a zero
/// entry size, or a 64-bit relocation without a symbol table is invalid;
/// reading or writing outside the image is a paging error.
pub fn apply_static_pie_relocs(img: &mut UserImage, phdrs: &[Phdr], bias: u64) -> (r: Result<(), ExecImageError>)
    requires
        old(img).base + old(img).bytes@.len() <= u64::MAX,
    ensures
        final(img).base == old(img).base,
        match relocated(old(img).bytes@, old(img).base, phdrs@, bias) {
            Ok(m) => r is Ok && final(img).bytes@ == m,
            Err(e) => r == Err::<(), ExecImageError>(e),
        },
{
    let i = match find_dynamic(phdrs) {
        Some(i) => i,
        None => return Ok(()),
    };
    proof {
        assert(first_dynamic(phdrs@, i as int));
        let c = choose|c: int| first_dynamic(phdrs@, c);
        if c < i { assert(phdrs@[c].p_type != PT_DYNAMIC); }
        if i < c { assert(phdrs@[i as int].p_type != PT_DYNAMIC); }
        assert(c == i);
    }
    let ph = phdrs[i];
    let start: u128 = bias as u128 + ph.p_vaddr as u128;
    let end: u128 = start + ph.p_memsz as u128;
    let d = match scan_dynamic(img, start, end) {
        Ok(d) => d,
        Err(e) => return Err(e),
    };
    if d.rela == 0 || d.relasz == 0 {
        return Ok(());
    }
    if d.relaent == 0 || d.syment == 0 {
        return Err(ExecImageError::InvalidElf);
    }
    let count = d.relasz / d.relaent;
    apply_range(img, bias, d, count)
}

/// Applies relocations `0..count` in order.
fn apply_range(img: &mut UserImage, bias: u64, d: DynInfo, count: u64) -> (r: Result<(), ExecImageError>)
    requires
        old(img).base + old(img).bytes@.len() <= u64::MAX,
        d.relaent > 0,
        count == d.relasz / d.relaent,
    ensures
        final(img).base == old(img).base,
        match relocs_upto(old(img).bytes@, old(img).base, bias, d, count as int) {
            Ok(m) => r is Ok && final(img).bytes@ == m,
            Err(e) => r == Err::<(), ExecImageError>(e),
        },
{
    let ghost m0 = img.bytes@;
    let mut k: u64 = 0;
    while k < count
        invariant
            img.base == old(img).base,
            m0 == old(img).bytes@,
            d.relaent > 0,
            count == d.relasz / d.relaent,
            k <= count,
            relocs_upto(m0, img.base, bias, d, k as int) == Ok::<Seq<u8>, ExecImageError>(img.bytes@),
            img.base + img.bytes@.len() <= u64::MAX,
        decreases count - k,
    {
        proof {
            assert(k * d.relaent <= d.relasz) by (nonlinear_arith)
                requires k < count, count == d.relasz / d.relaent, d.relaent > 0;
        }
        match apply_one(img, bias, d, k) {
            Ok(()) => {},
            Err(e) => {
                proof {
                    assert(relocs_upto(m0, img.base, bias, d, k as int + 1) == Err::<Seq<u8>, ExecImageError>(e));
                    lemma_relocs_err_sticky(m0, img.base, bias, d, k as int + 1, count as int);
                }
                return Err(e);
            },
        }
        k = k + 1;
    }
    Ok(())
}


/// Segment `seg` lies inside the memory `m` that starts at `base`.
pub open spec fn segment_inside(m: Seq<u8>, base: u64, seg: SegmentMap) -> bool {
    base <= seg.start <= seg.end <= base + m.len()
}

/// `m` (from address `base` on) after loading segment `seg` of `file`: its
/// first `filesz` bytes come from the file at `file_offset`, the rest up to
/// its end are zero, and every other byte stays.
pub open spec fn segment_filled(m: Seq<u8>, base: u64, seg: SegmentMap, file: Seq<u8>) -> Seq<u8> {
    Seq::new(m.len(), |i: int| {
        let a = base + i;
        if seg.start <= a < seg.end {
            if a - seg.start < seg.filesz { file[seg.file_offset + (a - seg.start)] } else { 0u8 }
        } else {
            m[i]
        }
    })
}

/// The segments `segs[0..n]` loaded into `m` in order; `None` as soon as
/// one does not lie inside it.
pub open spec fn segments_loaded(m: Seq<u8>, base: u64, segs: Seq<SegmentMap>, file: Seq<u8>, n: int) -> Option<Seq<u8>>
    decreases n,
{
    if n <= 0 {
        Some(m)
    } else {
        match segments_loaded(m, base, segs, file, n - 1) {
            None => None,
            Some(m1) => if segment_inside(m1, base, segs[n - 1]) {
                Some(segment_filled(m1, base, segs[n - 1], file))
            } else {
                None
            },
        }
    }
}

/// Each segment's file bytes lie in the file and fit in the segment.
pub open spec fn segments_fit(segs: Seq<SegmentMap>, file: Seq<u8>) -> bool {
    forall|j: int| 0 <= j < segs.len() ==> {
        let s = #[trigger] segs[j];
        &&& s.start <= s.end
        &&& s.filesz <= s.end - s.start
        &&& s.file_offset + s.filesz <= file.len()
    }
}

/// Fills segment `seg` of `file` into the image: `InvalidAddress` (and the
/// image untouched) when the segment is not inside it.
pub fn fill_segment(img: &mut UserImage, file: &[u8], seg: SegmentMap) -> (r: Result<(), ExecImageError>)
    requires
        seg.start <= seg.end,
        seg.filesz <= seg.end - seg.start,
        seg.file_offset + seg.filesz <= file@.len(),
    ensures
        final(img).base == old(img).base,
        segment_inside(old(img).bytes@, old(img).base, seg) ==> r is Ok
            && final(img).bytes@ == segment_filled(old(img).bytes@, old(img).base, seg, file@),
        !segment_inside(old(img).bytes@, old(img).base, seg) ==>
            r == Err::<(), ExecImageError>(ExecImageError::Paging(PagingError::InvalidAddress))
            && final(img).bytes@ == old(img).bytes@,
{
    let len = img.bytes.len() as u64;
    let flen = file.len();
    if seg.start < img.base || seg.end - img.base > len {
        return Err(ExecImageError::Paging(PagingError::InvalidAddress));
    }
    let lo = (seg.start - img.base) as usize;
    let hi = (seg.end - img.base) as usize;
    let ghost m0 = img.bytes@;
    let ghost target = segment_filled(m0, img.base, seg, file@);
    let mut i: usize = lo;
    while i < hi
        invariant
            lo <= i <= hi,
            hi <= m0.len(),
            lo == seg.start - img.base,
            hi == seg.end - img.base,
            img.base == old(img).base,
            m0 == old(img).bytes@,
            target == segment_filled(m0, img.base, seg, file@),
            seg.filesz <= seg.end - seg.start,
            seg.file_offset + seg.filesz <= file@.len(),
            flen == file@.len(),
            img.bytes@.len() == m0.len(),
            forall|j: int| 0 <= j < m0.len() && !(lo <= j < i) ==> #[trigger] img.bytes@[j] == m0[j],
            forall|j: int| lo <= j < i ==> #[trigger] img.bytes@[j] == target[j],
        decreases hi - i,
    {
        let d = (i - lo) as u64;
        let b: u8 = if d < seg.filesz {
            assert(seg.file_offset + d < file@.len());
            file[(seg.file_offset + d) as usize]
        } else {
            0
        };
        img.bytes.set(i, b);
        proof {
            assert(target[i as int] == b);
        }
        i = i + 1;
    }
    proof {
        assert(img.bytes@ =~= target);
    }
    Ok(())
}

/// Loads every segment of `plan` from `file` into the image, in order:
/// each segment's file bytes, then zeros up to its end. `InvalidAddress`
/// for the first segment outside the image (the ones before it are loaded).
pub fn load_segments(img: &mut UserImage, file: &[u8], plan: &LoadPlan) -> (r: Result<(), ExecImageError>)
    requires
        segments_fit(plan.segments@, file@),
    ensures
        final(img).base == old(img).base,
        match segments_loaded(old(img).bytes@, old(img).base, plan.segments@, file@, plan.segments@.len() as int) {
            Some(m) => r is Ok && final(img).bytes@ == m,
            None => r == Err::<(), ExecImageError>(ExecImageError::Paging(PagingError::InvalidAddress)),
        },
{
    let mut i: usize = 0;
    while i < plan.segments.len()
        invariant
            i <= plan.segments@.len(),
            segments_fit(plan.segments@, file@),
            img.base == old(img).base,
            segments_loaded(old(img).bytes@, old(img).base, plan.segments@, file@, i as int) == Some(img.bytes@),
        decreases plan.segments@.len() - i,
    {
        let seg = plan.segments[i];
        assert(seg == plan.segments@[i as int]);
        match fill_segment(img, file, seg) {
            Err(e) => {
                proof { lemma_loaded_none_sticks(old(img).bytes@, old(img).base, plan.segments@, file@, i + 1, plan.segments@.len() as int); }
                return Err(e);
            },
            Ok(()) => {},
        }
        i = i + 1;
    }
    Ok(())
}

proof fn lemma_loaded_none_sticks(m: Seq<u8>, base: u64, segs: Seq<SegmentMap>, file: Seq<u8>, a: int, b: int)
    requires
        a <= b,
        segments_loaded(m, base, segs, file, a) is None,
    ensures
        segments_loaded(m, base, segs, file, b) is None,
    decreases b - a,
{
    if a < b {
        lemma_loaded_none_sticks(m, base, segs, file, a, b - 1);
    }
}

} // verus!
