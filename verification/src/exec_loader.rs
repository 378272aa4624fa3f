//! Reading an ELF executable: the header, the program headers, the
//! interpreter path, and where each loadable segment goes.

use vstd::prelude::*;
use crate::errno::FsError;
use crate::fd_table::FdTable;
use crate::file::{FileSystem, FsStruct};
use crate::vfs::InodeType;
use crate::syscall::path::{ctx_ok, resolve_at_flags, resolve_at_path_with_flags, AT_FDCWD};

verus! {

/// Why an image cannot be prepared.
#[derive(Clone, Copy, Debug, PartialEq, Eq, Structural)]
pub enum ExecImageError {
    Fs(FsError),
    InvalidElf,
    Paging(PagingError),
}

/// Why the address space refused a mapping.
#[derive(Clone, Copy, Debug, PartialEq, Eq, Structural)]
pub enum PagingError {
    OutOfMemory,
    InvalidAddress,
}

pub const ELFCLASS64: u8 = 2;
pub const ELFDATA2LSB: u8 = 1;
pub const ET_DYN: u16 = 3;
pub const EM_RISCV: u16 = 243;
pub const PT_LOAD: u32 = 1;
pub const PT_DYNAMIC: u32 = 2;
pub const PT_INTERP: u32 = 3;
pub const PF_X: u32 = 1;
pub const PF_W: u32 = 2;
pub const PF_R: u32 = 4;
/// The size of one program header.
pub const PHDR_SIZE: usize = 56;
/// The size of the ELF header.
pub const EHDR_SIZE: usize = 64;
/// The longest interpreter path accepted.
pub const INTERP_MAX: u64 = 4096;
pub const PAGE_SIZE: u64 = 4096;
/// The top of the user stack.
pub const USER_STACK_TOP: u64 = 0x40_0000_0000;
/// The size of the user stack.
pub const USER_STACK_SIZE: u64 = 0x80_0000;
/// The load address of a position-independent main program.
pub const PIE_BASE: u64 = 0x10000;

/// The fields of the ELF header the loader uses.
#[derive(Clone, Copy, Debug, PartialEq, Eq, Structural)]
pub struct ElfHdr {
    pub e_type: u16,
    pub e_machine: u16,
    pub e_entry: u64,
    pub e_phoff: u64,
    pub e_phentsize: u16,
    pub e_phnum: u16,
}

/// The fields of a program header the loader uses.
#[derive(Clone, Copy, Debug, PartialEq, Eq, Structural)]
pub struct Phdr {
    pub p_type: u32,
    pub p_flags: u32,
    pub p_offset: u64,
    pub p_vaddr: u64,
    pub p_filesz: u64,
    pub p_memsz: u64,
}

/// The little-endian number in bytes `b[i..i+n]`.
pub open spec fn le(b: Seq<u8>, i: int, n: nat) -> nat
    decreases n,
{
    if n == 0 { 0 } else { b[i] as nat + 256 * le(b, i + 1, (n - 1) as nat) }
}

/// The little-endian `u16` at `b[i..i+2]`.
pub fn le_u16(b: &[u8], i: usize) -> (r: u16)
    requires
        i + 2 <= b@.len(),
    ensures
        r == le(b@, i as int, 2),
{
    proof { reveal_with_fuel(le, 3); }
    (b[i] as u16) + 256 * (b[i + 1] as u16)
}

/// The little-endian `u32` at `b[i..i+4]`.
pub fn le_u32(b: &[u8], i: usize) -> (r: u32)
    requires
        i + 4 <= b@.len(),
    ensures
        r == le(b@, i as int, 4),
{
    proof { reveal_with_fuel(le, 5); }
    let _n = b.len();
    let lo = le_u16(b, i) as u32;
    let hi = le_u16(b, i + 2) as u32;
    proof { reveal_with_fuel(le, 5); }
    assert(le(b@, i as int, 4) == le(b@, i as int, 2) + 65536 * le(b@, i + 2, 2)) by {
        reveal_with_fuel(le, 5);
    }
    assert(lo <= 0xffff && hi <= 0xffff);
    assert(65536 * hi <= 0xffff0000) by (nonlinear_arith) requires hi <= 0xffff;
    lo + 65536 * hi
}

/// The little-endian `u64` at `b[i..i+8]`.
pub fn le_u64(b: &[u8], i: usize) -> (r: u64)
    requires
        i + 8 <= b@.len(),
    ensures
        r == le(b@, i as int, 8),
{
    let _n = b.len();
    let lo = le_u32(b, i) as u64;
    let hi = le_u32(b, i + 4) as u64;
    assert(le(b@, i as int, 8) == le(b@, i as int, 4) + 0x1_0000_0000 * le(b@, i + 4, 4)) by {
        reveal_with_fuel(le, 9);
    }
    assert(lo <= 0xffff_ffff && hi <= 0xffff_ffff);
    assert(0x1_0000_0000 * hi <= 0xffff_ffff_0000_0000) by (nonlinear_arith) requires hi <= 0xffff_ffff;
    lo + 0x1_0000_0000 * hi
}


/// `img` holds `n` bytes at offset `off`.
pub open spec fn in_image(img: Seq<u8>, off: int, n: int) -> bool {
    0 <= off && off + n <= img.len()
}

/// The ELF header of `img`, or why it is refused: it must be a 64-bit
/// little-endian RISC-V image whose program headers have the usual size
/// and are at least one.
pub open spec fn elf_header(img: Seq<u8>) -> Result<ElfHdr, ExecImageError> {
    if img.len() < EHDR_SIZE {
        Err(ExecImageError::InvalidElf)
    } else if img[0] != 0x7f || img[1] != 0x45 || img[2] != 0x4c || img[3] != 0x46 {
        Err(ExecImageError::InvalidElf)
    } else if img[4] != ELFCLASS64 || img[5] != ELFDATA2LSB {
        Err(ExecImageError::InvalidElf)
    } else if le(img, 18, 2) != EM_RISCV || le(img, 54, 2) != PHDR_SIZE || le(img, 56, 2) == 0 {
        Err(ExecImageError::InvalidElf)
    } else {
        Ok(ElfHdr {
            e_type: le(img, 16, 2) as u16,
            e_machine: le(img, 18, 2) as u16,
            e_entry: le(img, 24, 8) as u64,
            e_phoff: le(img, 32, 8) as u64,
            e_phentsize: le(img, 54, 2) as u16,
            e_phnum: le(img, 56, 2) as u16,
        })
    }
}

/// Reads and checks the ELF header.
pub fn parse_elf_header(img: &[u8]) -> (r: Result<ElfHdr, ExecImageError>)
    ensures
        r == elf_header(img@),
{
    if img.len() < EHDR_SIZE {
        return Err(ExecImageError::InvalidElf);
    }
    if img[0] != 0x7f || img[1] != 0x45 || img[2] != 0x4c || img[3] != 0x46 {
        return Err(ExecImageError::InvalidElf);
    }
    if img[4] != ELFCLASS64 || img[5] != ELFDATA2LSB {
        return Err(ExecImageError::InvalidElf);
    }
    let e_type = le_u16(img, 16);
    let e_machine = le_u16(img, 18);
    let e_entry = le_u64(img, 24);
    let e_phoff = le_u64(img, 32);
    let e_phentsize = le_u16(img, 54);
    let e_phnum = le_u16(img, 56);
    if e_machine != EM_RISCV || e_phentsize as usize != PHDR_SIZE || e_phnum == 0 {
        return Err(ExecImageError::InvalidElf);
    }
    Ok(ElfHdr { e_type, e_machine, e_entry, e_phoff, e_phentsize, e_phnum })
}

/// The program header at offset `off` of `img`.
pub open spec fn phdr_at(img: Seq<u8>, off: int) -> Phdr {
    Phdr {
        p_type: le(img, off, 4) as u32,
        p_flags: le(img, off + 4, 4) as u32,
        p_offset: le(img, off + 8, 8) as u64,
        p_vaddr: le(img, off + 16, 8) as u64,
        p_filesz: le(img, off + 32, 8) as u64,
        p_memsz: le(img, off + 40, 8) as u64,
    }
}

/// The program headers `eh` describes, or `InvalidElf` when the image
/// does not hold them all.
pub open spec fn program_headers(img: Seq<u8>, eh: ElfHdr) -> Result<Seq<Phdr>, ExecImageError> {
    let n = eh.e_phnum as int;
    if !in_image(img, eh.e_phoff as int, n * PHDR_SIZE) {
        Err(ExecImageError::InvalidElf)
    } else {
        Ok(Seq::new(n as nat, |i: int| phdr_at(img, eh.e_phoff + i * PHDR_SIZE)))
    }
}

/// Reads the program headers.
pub fn parse_program_headers(img: &[u8], eh: &ElfHdr) -> (r: Result<Vec<Phdr>, ExecImageError>)
    requires
        eh.e_phentsize == PHDR_SIZE,
    ensures
        match program_headers(img@, *eh) {
            Ok(s) => r matches Ok(v) && v@ == s,
            Err(e) => r == Err::<Vec<Phdr>, ExecImageError>(e),
        },
{
    let n = eh.e_phnum as usize;
    let total = n * PHDR_SIZE;
    if eh.e_phoff > img.len() as u64 || (img.len() as u64 - eh.e_phoff) < total as u64 {
        return Err(ExecImageError::InvalidElf);
    }
    let base = eh.e_phoff as usize;
    let mut out: Vec<Phdr> = Vec::new();
    let mut i: usize = 0;
    while i < n
        invariant
            0 <= i <= n,
            n == eh.e_phnum,
            base == eh.e_phoff,
            base + n * PHDR_SIZE <= img@.len(),
            img@.len() <= usize::MAX,
            out@.len() == i,
            forall|j: int| 0 <= j < i ==> #[trigger] out@[j] == phdr_at(img@, eh.e_phoff + j * PHDR_SIZE),
        decreases n - i,
    {
        assert((i + 1) * PHDR_SIZE <= n * PHDR_SIZE) by (nonlinear_arith) requires i < n;
        let off = base + i * PHDR_SIZE;
        out.push(Phdr {
            p_type: le_u32(img, off),
            p_flags: le_u32(img, off + 4),
            p_offset: le_u64(img, off + 8),
            p_vaddr: le_u64(img, off + 16),
            p_filesz: le_u64(img, off + 32),
            p_memsz: le_u64(img, off + 40),
        });
        i = i + 1;
    }
    assert(out@ =~= Seq::new(n as nat, |j: int| phdr_at(img@, eh.e_phoff + j * PHDR_SIZE)));
    Ok(out)
}

/// Whether `b` is valid UTF-8: a name for what `core::str::from_utf8` decides.
pub uninterp spec fn utf8_valid(b: Seq<u8>) -> bool;

/// Calls `core::str::from_utf8` and reports whether it accepted `b`; as
/// its documentation says, ASCII text (every byte below 0x80) is valid UTF-8.
#[verifier::external_body]
pub(crate) fn is_utf8(b: &[u8]) -> (r: bool)
    ensures
        r == utf8_valid(b@),
        (forall|i: int| 0 <= i < b@.len() ==> b@[i] < 0x80) ==> r,
{
    core::str::from_utf8(b).is_ok()
}

/// The index of the first 0 byte of `b`, or its length.
pub open spec fn nul_end(b: Seq<u8>, end: int) -> bool {
    &&& 0 <= end <= b.len()
    &&& end < b.len() ==> b[end] == 0
    &&& forall|j: int| 0 <= j < end ==> b[j] != 0
}

/// Header `i` is the first `PT_INTERP` one.
pub open spec fn first_interp(phdrs: Seq<Phdr>, i: int) -> bool {
    &&& 0 <= i < phdrs.len()
    &&& phdrs[i].p_type == PT_INTERP
    &&& forall|j: int| 0 <= j < i ==> (#[trigger] phdrs[j]).p_type != PT_INTERP
}

/// The first 0 byte of `b`, or its length.
pub open spec fn nul_index(b: Seq<u8>) -> int
    decreases b.len(),
{
    if b.len() == 0 { 0 } else if b[0] == 0 { 0 } else { 1 + nul_index(b.drop_first()) }
}

proof fn lemma_nul_unique(b: Seq<u8>, end: int)
    requires
        nul_end(b, end),
    ensures
        end == nul_index(b),
    decreases b.len(),
{
    if b.len() > 0 && b[0] != 0 {
        assert(end > 0);
        let t = b.drop_first();
        assert(nul_end(t, end - 1)) by {
            assert forall|j: int| 0 <= j < end - 1 implies t[j] != 0 by { assert(t[j] == b[j + 1]); }
            if end - 1 < t.len() { assert(t[end - 1] == b[end]); }
        }
        lemma_nul_unique(t, end - 1);
    }
}

/// What `find_interp_path` gives: no interpreter without a `PT_INTERP`
/// header; `InvalidElf` when the first one is empty, too long or outside
/// the image, or its bytes up to the first 0 are not UTF-8; else those bytes.
pub open spec fn interp_result(img: Seq<u8>, phdrs: Seq<Phdr>) -> Result<Option<Seq<u8>>, ExecImageError> {
    if forall|j: int| 0 <= j < phdrs.len() ==> (#[trigger] phdrs[j]).p_type != PT_INTERP {
        Ok(None)
    } else {
        let i = choose|i: int| #[trigger] first_interp(phdrs, i);
        let ph = phdrs[i];
        if ph.p_filesz == 0 || ph.p_filesz > INTERP_MAX || !in_image(img, ph.p_offset as int, ph.p_filesz as int) {
            Err(ExecImageError::InvalidElf)
        } else {
            let bytes = img.subrange(ph.p_offset as int, ph.p_offset + ph.p_filesz);
            let p = bytes.take(nul_index(bytes));
            if utf8_valid(p) { Ok(Some(p)) } else { Err(ExecImageError::InvalidElf) }
        }
    }
}

/// The interpreter path the first `PT_INTERP` header names: its bytes up to
/// the first 0, which must be UTF-8; `None` without such a header.
pub fn find_interp_path(img: &[u8], phdrs: &[Phdr]) -> (r: Result<Option<Vec<u8>>, ExecImageError>)
    ensures
        (forall|j: int| 0 <= j < phdrs@.len() ==> (#[trigger] phdrs@[j]).p_type != PT_INTERP)
            ==> r == Ok::<Option<Vec<u8>>, ExecImageError>(None),
        forall|i: int| #[trigger] first_interp(phdrs@, i) ==> {
            let ph = phdrs@[i];
            if ph.p_filesz == 0 || ph.p_filesz > INTERP_MAX || !in_image(img@, ph.p_offset as int, ph.p_filesz as int) {
                r == Err::<Option<Vec<u8>>, ExecImageError>(ExecImageError::InvalidElf)
            } else {
                let bytes = img@.subrange(ph.p_offset as int, ph.p_offset + ph.p_filesz);
                match r {
                    Ok(Some(p)) => exists|end: int| nul_end(bytes, end) && p@ == bytes.take(end)
                        && utf8_valid(p@),
                    Err(e) => e == ExecImageError::InvalidElf && exists|end: int| nul_end(bytes, end)
                        && !utf8_valid(bytes.take(end)),
                    Ok(None) => false,
                }
            }
        },
        match interp_result(img@, phdrs@) {
            Ok(None) => r matches Ok(None),
            Ok(Some(p)) => r matches Ok(Some(v)) && v@ == p,
            Err(e) => r == Err::<Option<Vec<u8>>, ExecImageError>(e),
        },
{
    let mut k: usize = 0;
    while k < phdrs.len()
        invariant
            0 <= k <= phdrs@.len(),
            forall|j: int| 0 <= j < k ==> (#[trigger] phdrs@[j]).p_type != PT_INTERP,
        decreases phdrs@.len() - k,
    {
        let ph = phdrs[k];
        if ph.p_type == PT_INTERP {
            assert forall|i: int| #[trigger] first_interp(phdrs@, i) implies i == k by {
                if i < k { assert(phdrs@[i].p_type != PT_INTERP); }
                if i > k { assert(phdrs@[k as int].p_type == PT_INTERP); }
            }
            proof {
                assert(first_interp(phdrs@, k as int));
                assert(!(forall|j: int| 0 <= j < phdrs@.len() ==> (#[trigger] phdrs@[j]).p_type != PT_INTERP));
            }
            if ph.p_filesz == 0 || ph.p_filesz > INTERP_MAX || ph.p_offset > img.len() as u64
                || img.len() as u64 - ph.p_offset < ph.p_filesz {
                return Err(ExecImageError::InvalidElf);
            }
            let start = ph.p_offset as usize;
            let len = ph.p_filesz as usize;
            let bytes = vstd::slice::slice_subrange(img, start, start + len);
            let mut end: usize = 0;
            while end < len && bytes[end] != 0
                invariant
                    0 <= end <= len,
                    len == bytes@.len(),
                    forall|j: int| 0 <= j < end ==> bytes@[j] != 0,
                decreases len - end,
            {
                end = end + 1;
            }
            assert(nul_end(bytes@, end as int));
            proof {
                lemma_nul_unique(bytes@, end as int);
                assert(first_interp(phdrs@, k as int));
                assert(!(forall|j: int| 0 <= j < phdrs@.len() ==> (#[trigger] phdrs@[j]).p_type != PT_INTERP));
            }
            let p = vstd::slice::slice_subrange(bytes, 0, end);
            assert(p@ =~= bytes@.take(end as int));
            if !is_utf8(p) {
                return Err(ExecImageError::InvalidElf);
            }
            return Ok(Some(vstd::slice::slice_to_vec(p)));
        }
        k = k + 1;
    }
    Ok(None)
}


/// The kind of area a segment is mapped as.
#[derive(Clone, Copy, Debug, PartialEq, Eq, Structural)]
pub enum AreaType {
    UserText,
    UserData,
    UserRodata,
    UserMmap,
    UserStack,
}

/// Where one loadable segment goes and what fills it: `filesz` bytes of
/// the file from `file_offset`, then zeros up to `end`.
#[derive(Clone, Copy, Debug, PartialEq, Eq, Structural)]
pub struct SegmentMap {
    pub start: u64,
    pub end: u64,
    /// `PF_R`, `PF_W` and `PF_X` of the segment.
    pub perm: u32,
    pub area: AreaType,
    pub file_offset: u64,
    pub filesz: u64,
}

/// What loading an image decided.
#[derive(Debug)]
pub struct LoadPlan {
    pub bias: u64,
    pub entry: u64,
    pub phdr_addr: u64,
    pub phnum: u64,
    pub phent: u64,
    /// The end of the highest segment: the heap starts above it.
    pub max_end: u64,
    pub segments: Vec<SegmentMap>,
}

/// The area kind of a segment with flags `f`.
pub open spec fn area_of(f: u32, as_mmap: bool) -> AreaType {
    if as_mmap { AreaType::UserMmap }
    else if f & PF_X != 0 { AreaType::UserText }
    else if f & PF_W != 0 { AreaType::UserData }
    else { AreaType::UserRodata }
}

/// The lowest start and highest end of the `PT_LOAD` headers among `phdrs`
/// (an end that overflows is refused), or `None` when there is none.
pub open spec fn load_extent(phdrs: Seq<Phdr>) -> Result<Option<(u64, u64)>, ExecImageError>
    decreases phdrs.len(),
{
    if phdrs.len() == 0 {
        Ok(None)
    } else {
        let ph = phdrs.last();
        match load_extent(phdrs.drop_last()) {
            Err(e) => Err(e),
            Ok(acc) => if ph.p_type != PT_LOAD {
                Ok(acc)
            } else if ph.p_vaddr + ph.p_memsz > u64::MAX {
                Err(ExecImageError::InvalidElf)
            } else {
                let end = (ph.p_vaddr + ph.p_memsz) as u64;
                match acc {
                    None => Ok(Some((ph.p_vaddr, end))),
                    Some((lo, hi)) => Ok(Some((if ph.p_vaddr < lo { ph.p_vaddr } else { lo },
                        if end > hi { end } else { hi }))),
                }
            },
        }
    }
}

/// The segment plan for the `PT_LOAD` headers among `phdrs`, loaded at
/// `bias`, in order; the first refused header decides the error.
pub open spec fn plan_segments(img: Seq<u8>, phdrs: Seq<Phdr>, bias: u64, as_mmap: bool)
    -> Result<Seq<SegmentMap>, ExecImageError>
    decreases phdrs.len(),
{
    if phdrs.len() == 0 {
        Ok(Seq::empty())
    } else {
        let ph = phdrs.last();
        match plan_segments(img, phdrs.drop_last(), bias, as_mmap) {
            Err(e) => Err(e),
            Ok(segs) => if ph.p_type != PT_LOAD {
                Ok(segs)
            } else if ph.p_filesz > ph.p_memsz {
                Err(ExecImageError::InvalidElf)
            } else if bias + ph.p_vaddr + ph.p_memsz > u64::MAX {
                Err(ExecImageError::InvalidElf)
            } else if bias + ph.p_vaddr >= USER_STACK_TOP - USER_STACK_SIZE {
                Err(ExecImageError::Paging(PagingError::InvalidAddress))
            } else if !in_image(img, ph.p_offset as int, ph.p_filesz as int) {
                Err(ExecImageError::InvalidElf)
            } else {
                Ok(segs.push(SegmentMap {
                    start: (bias + ph.p_vaddr) as u64,
                    end: (bias + ph.p_vaddr + ph.p_memsz) as u64,
                    perm: ph.p_flags & (PF_R | PF_W | PF_X),
                    area: area_of(ph.p_flags, as_mmap),
                    file_offset: ph.p_offset,
                    filesz: ph.p_filesz,
                }))
            },
        }
    }
}

/// The highest segment end of `segs` (0 for none).
pub open spec fn max_end_of(segs: Seq<SegmentMap>) -> u64
    decreases segs.len(),
{
    if segs.len() == 0 { 0 } else {
        let m = max_end_of(segs.drop_last());
        if segs.last().end > m { segs.last().end } else { m }
    }
}

/// Where the program headers are in memory: inside the first `PT_LOAD`
/// segment whose file range holds them, or 0.
pub open spec fn phdr_address(phdrs: Seq<Phdr>, phoff: u64, bias: u64) -> int
    decreases phdrs.len(),
{
    if phdrs.len() == 0 {
        0
    } else {
        let ph = phdrs[0];
        if ph.p_type == PT_LOAD && ph.p_offset <= phoff && phoff < ph.p_offset + ph.p_filesz {
            bias + ph.p_vaddr + (phoff - ph.p_offset)
        } else {
            phdr_address(phdrs.drop_first(), phoff, bias)
        }
    }
}

proof fn lemma_extent_err_extends(phdrs: Seq<Phdr>, i: int)
    requires
        0 <= i <= phdrs.len(),
        load_extent(phdrs.take(i)) is Err,
    ensures
        load_extent(phdrs) == load_extent(phdrs.take(i)),
    decreases phdrs.len() - i,
{
    if i < phdrs.len() {
        assert(phdrs.take(i + 1).drop_last() =~= phdrs.take(i));
        lemma_extent_err_extends(phdrs, i + 1);
    } else {
        assert(phdrs.take(i) =~= phdrs);
    }
}

proof fn lemma_plan_err_extends(img: Seq<u8>, phdrs: Seq<Phdr>, bias: u64, as_mmap: bool, i: int)
    requires
        0 <= i <= phdrs.len(),
        plan_segments(img, phdrs.take(i), bias, as_mmap) is Err,
    ensures
        plan_segments(img, phdrs, bias, as_mmap) == plan_segments(img, phdrs.take(i), bias, as_mmap),
    decreases phdrs.len() - i,
{
    if i < phdrs.len() {
        assert(phdrs.take(i + 1).drop_last() =~= phdrs.take(i));
        lemma_plan_err_extends(img, phdrs, bias, as_mmap, i + 1);
    } else {
        assert(phdrs.take(i) =~= phdrs);
    }
}

/// Computes the extent of the loadable segments.
pub fn compute_load_extent(phdrs: &[Phdr]) -> (r: Result<Option<(u64, u64)>, ExecImageError>)
    ensures
        r == load_extent(phdrs@),
{
    let mut acc: Option<(u64, u64)> = None;
    let mut i: usize = 0;
    assert(phdrs@.take(0) =~= Seq::<Phdr>::empty());
    while i < phdrs.len()
        invariant
            0 <= i <= phdrs@.len(),
            load_extent(phdrs@.take(i as int)) == Ok::<Option<(u64, u64)>, ExecImageError>(acc),
        decreases phdrs@.len() - i,
    {
        let ph = phdrs[i];
        assert(phdrs@.take(i + 1).drop_last() =~= phdrs@.take(i as int));
        if ph.p_type == PT_LOAD {
            if ph.p_memsz > u64::MAX - ph.p_vaddr {
                proof { lemma_extent_err_extends(phdrs@, i + 1); }
                return Err(ExecImageError::InvalidElf);
            }
            let end = ph.p_vaddr + ph.p_memsz;
            acc = match acc {
                None => Some((ph.p_vaddr, end)),
                Some((lo, hi)) => Some((if ph.p_vaddr < lo { ph.p_vaddr } else { lo }, if end > hi { end } else { hi })),
            };
        }
        i = i + 1;
    }
    assert(phdrs@.take(i as int) =~= phdrs@);
    Ok(acc)
}

/// `addr` rounded down to a page boundary.
pub open spec fn page_floor(addr: u64) -> u64 {
    (addr - addr % PAGE_SIZE) as u64
}

/// The span `[start, end)` of pages a load covers, and its size; refused
/// when there is no `PT_LOAD` header, when it is empty, or when rounding
/// up overflows.
pub open spec fn load_span(phdrs: Seq<Phdr>) -> Result<(u64, u64), ExecImageError> {
    match load_extent(phdrs) {
        Err(e) => Err(e),
        Ok(None) => Err(ExecImageError::InvalidElf),
        Ok(Some((lo, hi))) => {
            let start = page_floor(lo);
            if hi % PAGE_SIZE != 0 && page_floor(hi) + PAGE_SIZE > u64::MAX {
                Err(ExecImageError::InvalidElf)
            } else {
                let end: int = if hi % PAGE_SIZE == 0 { hi as int } else { page_floor(hi) + PAGE_SIZE };
                if end <= start { Err(ExecImageError::InvalidElf) } else { Ok((start, (end - start) as u64)) }
            }
        },
    }
}

/// The page span of a load: its first page address and its size.
pub fn compute_load_span(phdrs: &[Phdr]) -> (r: Result<(u64, u64), ExecImageError>)
    ensures
        r == load_span(phdrs@),
{
    let (lo, hi) = match compute_load_extent(phdrs) {
        Err(e) => return Err(e),
        Ok(None) => return Err(ExecImageError::InvalidElf),
        Ok(Some(x)) => x,
    };
    let start = lo - lo % PAGE_SIZE;
    let end: u64 = if hi % PAGE_SIZE == 0 {
        hi
    } else {
        let f = hi - hi % PAGE_SIZE;
        if f > u64::MAX - PAGE_SIZE {
            return Err(ExecImageError::InvalidElf);
        }
        f + PAGE_SIZE
    };
    if end <= start {
        return Err(ExecImageError::InvalidElf);
    }
    Ok((start, end - start))
}

/// The load bias: 0 for a fixed-address image; for a position-independent
/// one the hint when given, else the free region the address space found
/// (its distance above the span's start), else out of memory.
pub open spec fn load_bias(eh: ElfHdr, span_start: u64, base_hint: Option<u64>, free_region: Option<u64>)
    -> Result<u64, ExecImageError> {
    if eh.e_type != ET_DYN {
        Ok(0)
    } else {
        match base_hint {
            Some(b) => Ok(b),
            None => match free_region {
                None => Err(ExecImageError::Paging(PagingError::OutOfMemory)),
                Some(m) => Ok(if m >= span_start { (m - span_start) as u64 } else { 0 }),
            },
        }
    }
}

/// What `load_segments_into_space` decides for an image.
pub open spec fn load_plan(img: Seq<u8>, eh: ElfHdr, phdrs: Seq<Phdr>, base_hint: Option<u64>,
    free_region: Option<u64>, as_mmap: bool) -> Result<(u64, Seq<SegmentMap>), ExecImageError> {
    match load_span(phdrs) {
        Err(e) => Err(e),
        Ok((start, _size)) => match load_bias(eh, start, base_hint, free_region) {
            Err(e) => Err(e),
            Ok(bias) => match plan_segments(img, phdrs, bias, as_mmap) {
                Err(e) => Err(e),
                Ok(segs) => if bias + eh.e_entry > u64::MAX || phdr_address(phdrs, eh.e_phoff, bias) > u64::MAX {
                    Err(ExecImageError::InvalidElf)
                } else {
                    Ok((bias, segs))
                },
            },
        },
    }
}

fn compute_phdr_address(phdrs: &[Phdr], phoff: u64, bias: u64) -> (r: Option<u64>)
    ensures
        match r {
            Some(a) => a == phdr_address(phdrs@, phoff, bias),
            None => phdr_address(phdrs@, phoff, bias) > u64::MAX,
        },
{
    let mut i: usize = 0;
    assert(phdrs@.skip(0) =~= phdrs@);
    while i < phdrs.len()
        invariant
            0 <= i <= phdrs@.len(),
            phdr_address(phdrs@, phoff, bias) == phdr_address(phdrs@.skip(i as int), phoff, bias),
        decreases phdrs@.len() - i,
    {
        let ph = phdrs[i];
        assert(phdrs@.skip(i as int)[0] == ph);
        assert(phdrs@.skip(i as int).drop_first() =~= phdrs@.skip(i + 1));
        if ph.p_type == PT_LOAD && ph.p_offset <= phoff && phoff - ph.p_offset < ph.p_filesz {
            let d = phoff - ph.p_offset;
            assert(phdr_address(phdrs@.skip(i as int), phoff, bias) == bias + ph.p_vaddr + d);
            if bias > u64::MAX - ph.p_vaddr || bias + ph.p_vaddr > u64::MAX - d {
                return None;
            }
            return Some(bias + ph.p_vaddr + d);
        }
        i = i + 1;
    }
    assert(phdrs@.skip(i as int) =~= Seq::<Phdr>::empty());
    Some(0)
}

/// Lays out the loadable segments of an image at its load bias: checks
/// each `PT_LOAD` header and gives where each segment goes, the entry
/// point, where the program headers are, and where the heap may start.
/// `free_region` is the start of a free region of the span's size, which
/// the address space found (used for a position-independent image without
/// a hint).
pub fn load_segments_into_space(img: &[u8], eh: &ElfHdr, phdrs: &[Phdr], base_hint: Option<u64>,
    free_region: Option<u64>, as_mmap: bool) -> (r: Result<LoadPlan, ExecImageError>)
    ensures
        match load_plan(img@, *eh, phdrs@, base_hint, free_region, as_mmap) {
            Err(e) => r == Err::<LoadPlan, ExecImageError>(e),
            Ok((bias, segs)) => r matches Ok(p) && p.bias == bias && p.segments@ == segs
                && p.entry == bias + eh.e_entry
                && p.phdr_addr == phdr_address(phdrs@, eh.e_phoff, bias)
                && p.phnum == eh.e_phnum && p.phent == eh.e_phentsize
                && p.max_end == max_end_of(segs)
                && crate::reloc::segments_fit(segs, img@),
        },
{
    let (start, _size) = match compute_load_span(phdrs) {
        Err(e) => return Err(e),
        Ok(x) => x,
    };
    let bias: u64 = if eh.e_type != ET_DYN {
        0
    } else {
        match base_hint {
            Some(b) => b,
            None => match free_region {
                None => return Err(ExecImageError::Paging(PagingError::OutOfMemory)),
                Some(m) => if m >= start { m - start } else { 0 },
            },
        }
    };
    let mut segs: Vec<SegmentMap> = Vec::new();
    let mut max_end: u64 = 0;
    let mut i: usize = 0;
    assert(phdrs@.take(0) =~= Seq::<Phdr>::empty());
    while i < phdrs.len()
        invariant
            0 <= i <= phdrs@.len(),
            plan_segments(img@, phdrs@.take(i as int), bias, as_mmap) == Ok::<Seq<SegmentMap>, ExecImageError>(segs@),
            max_end == max_end_of(segs@),
            load_span(phdrs@) matches Ok((st, _)) && st == start,
            load_bias(*eh, start, base_hint, free_region) == Ok::<u64, ExecImageError>(bias),
            crate::reloc::segments_fit(segs@, img@),
        decreases phdrs@.len() - i,
    {
        let ph = phdrs[i];
        assert(phdrs@.take(i + 1).drop_last() =~= phdrs@.take(i as int));
        if ph.p_type == PT_LOAD {
            let bad = if ph.p_filesz > ph.p_memsz {
                Some(ExecImageError::InvalidElf)
            } else if bias > u64::MAX - ph.p_vaddr || bias + ph.p_vaddr > u64::MAX - ph.p_memsz {
                Some(ExecImageError::InvalidElf)
            } else if bias + ph.p_vaddr >= USER_STACK_TOP - USER_STACK_SIZE {
                Some(ExecImageError::Paging(PagingError::InvalidAddress))
            } else if ph.p_offset > img.len() as u64 || img.len() as u64 - ph.p_offset < ph.p_filesz {
                Some(ExecImageError::InvalidElf)
            } else {
                None
            };
            if let Some(e) = bad {
                assert(phdrs@.take(i + 1).last() == ph);
                assert(plan_segments(img@, phdrs@.take(i + 1), bias, as_mmap)
                    == Err::<Seq<SegmentMap>, ExecImageError>(e));
                proof { lemma_plan_err_extends(img@, phdrs@, bias, as_mmap, i + 1); }
                return Err(e);
            }
            let area = if as_mmap { AreaType::UserMmap }
                else if ph.p_flags & PF_X != 0 { AreaType::UserText }
                else if ph.p_flags & PF_W != 0 { AreaType::UserData }
                else { AreaType::UserRodata };
            let seg = SegmentMap {
                start: bias + ph.p_vaddr,
                end: bias + ph.p_vaddr + ph.p_memsz,
                perm: ph.p_flags & (PF_R | PF_W | PF_X),
                area,
                file_offset: ph.p_offset,
                filesz: ph.p_filesz,
            };
            let ghost before = segs@;
            segs.push(seg);
            assert(segs@.drop_last() =~= before);
            assert forall|j: int| 0 <= j < segs@.len() implies {
                let s = #[trigger] segs@[j];
                &&& s.start <= s.end
                &&& s.filesz <= s.end - s.start
                &&& s.file_offset + s.filesz <= img@.len()
            } by {
                if j < before.len() { assert(segs@[j] == before[j]); }
            }
            if seg.end > max_end {
                max_end = seg.end;
            }
        }
        i = i + 1;
    }
    assert(phdrs@.take(i as int) =~= phdrs@);
    if bias > u64::MAX - eh.e_entry {
        return Err(ExecImageError::InvalidElf);
    }
    let phdr_addr = match compute_phdr_address(phdrs, eh.e_phoff, bias) {
        None => return Err(ExecImageError::InvalidElf),
        Some(a) => a,
    };
    Ok(LoadPlan {
        bias,
        entry: bias + eh.e_entry,
        phdr_addr,
        phnum: eh.e_phnum as u64,
        phent: eh.e_phentsize as u64,
        max_end,
        segments: segs,
    })
}


/// An image ready to be mapped: the segments of the program and of its
/// interpreter, and the values the new user context starts from.
#[derive(Debug)]
pub struct PreparedExecImage {
    pub main: LoadPlan,
    /// The interpreter's inode and segments, for a dynamically linked program.
    pub interp: Option<(u64, LoadPlan)>,
    /// The first instruction: the interpreter's entry when there is one,
    /// else the program's.
    pub initial_pc: u64,
    pub user_sp_high: u64,
    /// `AT_BASE`: the interpreter's load bias (0 without one).
    pub at_base: u64,
    /// `AT_ENTRY`: the program's own entry point.
    pub at_entry: u64,
    pub phdr_addr: u64,
    pub phnum: u64,
    pub phent: u64,
    /// The first page above the program's segments, where the heap starts.
    pub heap_start: u64,
    /// A static position-independent program still needs its relocations applied.
    pub needs_relocation: bool,
}

/// `addr` rounded up to a page boundary, if that fits.
pub open spec fn page_ceil(addr: u64) -> Option<u64> {
    if addr % PAGE_SIZE == 0 { Some(addr) }
    else if page_floor(addr) + PAGE_SIZE > u64::MAX { None }
    else { Some((page_floor(addr) + PAGE_SIZE) as u64) }
}

fn round_up_page(addr: u64) -> (r: Option<u64>)
    ensures
        r == page_ceil(addr),
{
    if addr % PAGE_SIZE == 0 {
        Some(addr)
    } else {
        let f = addr - addr % PAGE_SIZE;
        if f > u64::MAX - PAGE_SIZE { None } else { Some(f + PAGE_SIZE) }
    }
}

/// The executable file `p` names, as the loader looks it up.
pub open spec fn exec_file(fs: &FileSystem, ctx: FsStruct, p: Seq<u8>) -> Result<u64, ExecImageError> {
    match resolve_at_flags(fs, ctx, Seq::empty(), AT_FDCWD, p, true) {
        Err(e) => Err(ExecImageError::Fs(e)),
        Ok(n) => if fs.itype(n) != InodeType::File { Err(ExecImageError::Fs(FsError::IsDirectory)) } else { Ok(n) },
    }
}

/// The parsed program of the file `n`: its header, program headers and interpreter path.
pub open spec fn parsed(img: Seq<u8>) -> Result<(ElfHdr, Seq<Phdr>), ExecImageError> {
    match elf_header(img) {
        Err(e) => Err(e),
        Ok(eh) => match program_headers(img, eh) {
            Err(e) => Err(e),
            Ok(ph) => Ok((eh, ph)),
        },
    }
}

/// Whether preparing `path` succeeds, and with which interpreter inode, or
/// the error of the first step that fails: finding the file, its headers,
/// its interpreter path, its layout, the page above it, then finding the
/// interpreter (a regular file), its headers and its layout.
pub open spec fn prepare_outcome(fs: &FileSystem, ctx: FsStruct, path: Seq<u8>, interp_region: Option<u64>)
    -> Result<Option<u64>, ExecImageError> {
    match exec_file(fs, ctx, path) {
        Err(e) => Err(e),
        Ok(n) => match parsed(fs.vfs.link(n)) {
            Err(e) => Err(e),
            Ok((eh, phdrs)) => match interp_result(fs.vfs.link(n), phdrs) {
                Err(e) => Err(e),
                Ok(ip) => match load_plan(fs.vfs.link(n), eh, phdrs,
                    if eh.e_type == ET_DYN { Some(PIE_BASE) } else { None }, None, false) {
                    Err(e) => Err(e),
                    Ok((_bias, segs)) => if page_ceil(max_end_of(segs)) is None {
                        Err(ExecImageError::InvalidElf)
                    } else {
                        match ip {
                            None => Ok(None),
                            Some(ipath) => match resolve_at_flags(fs, ctx, Seq::empty(), AT_FDCWD, ipath, true) {
                                Err(e) => Err(ExecImageError::Fs(e)),
                                Ok(ino) => if fs.itype(ino) != InodeType::File {
                                    Err(ExecImageError::InvalidElf)
                                } else {
                                    match parsed(fs.vfs.link(ino)) {
                                        Err(e) => Err(e),
                                        Ok((ieh, iph)) => match load_plan(fs.vfs.link(ino), ieh, iph, None, interp_region, true) {
                                            Err(e) => Err(e),
                                            Ok(_) => Ok(Some(ino)),
                                        },
                                    }
                                },
                            },
                        }
                    },
                },
            },
        },
    }
}

#[verifier::rlimit(100)]
/// Looks up the program `path`, reads its headers and its interpreter's,
/// and lays out both. `interp_region` is where the address space has room
/// for the interpreter (`None`: no room).
pub fn prepare_exec_image_from_path(fs: &FileSystem, ctx: &FsStruct, path: &[u8], interp_region: Option<u64>)
    -> (r: Result<PreparedExecImage, ExecImageError>)
    requires
        fs.wf(),
        ctx_ok(fs, *ctx),
    ensures
        match exec_file(fs, *ctx, path@) {
            Err(e) => r == Err::<PreparedExecImage, ExecImageError>(e),
            Ok(n) => match parsed(fs.vfs.link(n)) {
                Err(e) => r == Err::<PreparedExecImage, ExecImageError>(e),
                Ok((eh, phdrs)) => match r {
                    Ok(p) => {
                        &&& load_plan(fs.vfs.link(n), eh, phdrs,
                            if eh.e_type == ET_DYN { Some(PIE_BASE) } else { None }, None, false)
                            == Ok::<(u64, Seq<SegmentMap>), ExecImageError>((p.main.bias, p.main.segments@))
                        &&& p.at_entry == p.main.entry
                        &&& p.main.entry == p.main.bias + eh.e_entry
                        &&& p.phdr_addr == phdr_address(phdrs, eh.e_phoff, p.main.bias)
                        &&& p.phnum == eh.e_phnum && p.phent == eh.e_phentsize
                        &&& page_ceil(max_end_of(p.main.segments@)) == Some(p.heap_start)
                        &&& p.user_sp_high == USER_STACK_TOP
                        &&& match p.interp {
                            None => p.initial_pc == p.main.entry && p.at_base == 0
                                && p.needs_relocation == (eh.e_type == ET_DYN),
                            Some((ino, ip)) => {
                                &&& prepare_outcome(fs, *ctx, path@, interp_region) == Ok::<Option<u64>, ExecImageError>(Some(ino))
                                &&& fs.itype(ino) == InodeType::File
                                &&& parsed(fs.vfs.link(ino)) matches Ok((ieh, iph))
                                &&& load_plan(fs.vfs.link(ino), ieh, iph, None, interp_region, true)
                                    == Ok::<(u64, Seq<SegmentMap>), ExecImageError>((ip.bias, ip.segments@))
                                &&& ip.entry == ip.bias + ieh.e_entry
                                &&& p.initial_pc == ip.entry && p.at_base == ip.bias
                                &&& !p.needs_relocation
                            },
                        }
                    },
                    Err(e) => prepare_outcome(fs, *ctx, path@, interp_region) == Err::<Option<u64>, ExecImageError>(e),
                },
            },
        },
        r is Ok <==> prepare_outcome(fs, *ctx, path@, interp_region) is Ok,
        r matches Ok(p) ==> (p.interp is None <==> prepare_outcome(fs, *ctx, path@, interp_region) == Ok::<Option<u64>, ExecImageError>(None)),
{
    let n = match resolve_at_path_with_flags(fs, ctx, &FdTable::new(), AT_FDCWD, path, true) {
        Err(e) => return Err(ExecImageError::Fs(e)),
        Ok(n) => n,
    };
    if fs.vfs.inode_type(n) != InodeType::File {
        return Err(ExecImageError::Fs(FsError::IsDirectory));
    }
    let img = fs.vfs.content(n);
    let eh = match parse_elf_header(img) {
        Err(e) => return Err(e),
        Ok(eh) => eh,
    };
    let phdrs = match parse_program_headers(img, &eh) {
        Err(e) => return Err(e),
        Ok(p) => p,
    };
    let interp = match find_interp_path(img, phdrs.as_slice()) {
        Err(e) => return Err(e),
        Ok(i) => i,
    };
    let hint = if eh.e_type == ET_DYN { Some(PIE_BASE) } else { None };
    let main = match load_segments_into_space(img, &eh, phdrs.as_slice(), hint, None, false) {
        Err(e) => return Err(e),
        Ok(p) => p,
    };
    let heap_start = match round_up_page(main.max_end) {
        None => return Err(ExecImageError::InvalidElf),
        Some(h) => h,
    };
    let entry = main.entry;
    let phdr_addr = main.phdr_addr;
    let phnum = main.phnum;
    let phent = main.phent;
    match interp {
        None => {
            let needs_relocation = eh.e_type == ET_DYN;
            Ok(PreparedExecImage {
                main, interp: None, initial_pc: entry, user_sp_high: USER_STACK_TOP, at_base: 0,
                at_entry: entry, phdr_addr, phnum, phent, heap_start, needs_relocation,
            })
        },
        Some(ipath) => {
            let ino = match resolve_at_path_with_flags(fs, ctx, &FdTable::new(), AT_FDCWD, ipath.as_slice(), true) {
                Err(e) => return Err(ExecImageError::Fs(e)),
                Ok(i) => i,
            };
            if fs.vfs.inode_type(ino) != InodeType::File {
                return Err(ExecImageError::InvalidElf);
            }
            let iimg = fs.vfs.content(ino);
            let ieh = match parse_elf_header(iimg) {
                Err(e) => return Err(e),
                Ok(eh) => eh,
            };
            let iphdrs = match parse_program_headers(iimg, &ieh) {
                Err(e) => return Err(e),
                Ok(p) => p,
            };
            let ip = match load_segments_into_space(iimg, &ieh, iphdrs.as_slice(), None, interp_region, true) {
                Err(e) => return Err(e),
                Ok(p) => p,
            };
            let ientry = ip.entry;
            let ibias = ip.bias;
            Ok(PreparedExecImage {
                main, interp: Some((ino, ip)), initial_pc: ientry, user_sp_high: USER_STACK_TOP,
                at_base: ibias, at_entry: entry, phdr_addr, phnum, phent, heap_start,
                needs_relocation: false,
            })
        },
    }
}

} // verus!
