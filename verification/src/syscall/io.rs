//! Reading and writing: regular files of the tree directly, other files
//! (devices, pipes, sockets) by their own drivers; the vectored and
//! positioned forms, `sendfile` and `ppoll`.

use vstd::prelude::*;
use crate::errno::{EBADF, EFAULT, EINVAL, FsError};
use crate::fd_table::{FdTable, FdEntry, entry};
use crate::file::{FileKind, FileSystem, OpenFile, O_ACCMODE, O_APPEND, O_WRONLY, O_RDONLY};
use crate::vfs::{InodeType, Vfs};

verus! {

pub open spec fn can_read(f: OpenFile) -> bool {
    f.flags & O_ACCMODE != O_WRONLY
}

pub open spec fn can_write(f: OpenFile) -> bool {
    f.flags & O_ACCMODE != O_RDONLY
}

pub open spec fn zero_bytes(n: nat) -> Seq<u8> {
    Seq::new(n, |i: int| 0u8)
}

/// The bytes from `off` on, at most `n` of them.
pub open spec fn read_range(c: Seq<u8>, off: int, n: int) -> Seq<u8> {
    if off >= c.len() {
        Seq::empty()
    } else if off + n >= c.len() {
        c.subrange(off, c.len() as int)
    } else {
        c.subrange(off, off + n)
    }
}

/// The contents after writing `d` at `off`; a gap past the end reads as zeros.
pub open spec fn write_range(c: Seq<u8>, off: int, d: Seq<u8>) -> Seq<u8> {
    let head = if off <= c.len() { c.take(off) } else { c + zero_bytes((off - c.len()) as nat) };
    let tail = if off + d.len() < c.len() { c.skip(off + d.len()) } else { Seq::empty() };
    head + d + tail
}

/// Reading `n` bytes at `off` from the regular file `ino`.
pub fn regular_read_at(vfs: &Vfs, ino: u64, off: u64, n: usize) -> (r: Result<Vec<u8>, FsError>)
    requires
        vfs.wf(),
        vfs.valid(ino),
    ensures
        vfs.inodes()[ino as int].itype == InodeType::Directory ==> r == Err::<Vec<u8>, FsError>(FsError::IsDirectory),
        vfs.inodes()[ino as int].itype != InodeType::Directory ==> (r matches Ok(b) && b@ == read_range(vfs.link(ino), off as int, n as int)),
{
    if vfs.inode_type(ino) == InodeType::Directory {
        return Err(FsError::IsDirectory);
    }
    let c = vfs.content(ino);
    let len = c.len();
    let mut out: Vec<u8> = Vec::new();
    if off as u128 >= len as u128 {
        return Ok(out);
    }
    let start = off as usize;
    let end = if n >= len - start { len } else { start + n };
    let mut i = start;
    while i < end
        invariant
            start <= i <= end,
            end <= c@.len(),
            out@ == c@.subrange(start as int, i as int),
        decreases end - i,
    {
        out.push(c[i]);
        i = i + 1;
        proof { assert(out@ =~= c@.subrange(start as int, i as int)); }
    }
    Ok(out)
}

/// Writing `d` at `off` to the regular file `ino`; a directory gives
/// `EISDIR`, a symbolic link `EINVAL`.
pub fn regular_write_at(vfs: &mut Vfs, ino: u64, off: u64, d: &[u8]) -> (r: Result<usize, FsError>)
    requires
        old(vfs).wf(),
        old(vfs).valid(ino),
        off + d@.len() <= usize::MAX,
    ensures
        final(vfs).wf(),
        final(vfs).dir() == old(vfs).dir(),
        final(vfs).inodes().len() == old(vfs).inodes().len(),
        old(vfs).inodes()[ino as int].itype == InodeType::Directory ==> r == Err::<usize, FsError>(FsError::IsDirectory) && *final(vfs) == *old(vfs),
        old(vfs).inodes()[ino as int].itype == InodeType::Symlink ==> r == Err::<usize, FsError>(FsError::InvalidArgument) && *final(vfs) == *old(vfs),
        old(vfs).inodes()[ino as int].itype != InodeType::Directory && old(vfs).inodes()[ino as int].itype != InodeType::Symlink
            && old(vfs).inodes()[ino as int].itype != InodeType::File ==> r == Err::<usize, FsError>(FsError::InvalidArgument) && *final(vfs) == *old(vfs),
        old(vfs).inodes()[ino as int].itype == InodeType::File ==> r == Ok::<usize, FsError>(d@.len() as usize)
            && final(vfs).link(ino) == write_range(old(vfs).link(ino), off as int, d@)
            && (forall|n: u64| n != ino && old(vfs).valid(n) ==> #[trigger] final(vfs).link(n) == old(vfs).link(n)),
{
    let t = vfs.inode_type(ino);
    if t == InodeType::Directory {
        return Err(FsError::IsDirectory);
    }
    if t != InodeType::File {
        return Err(FsError::InvalidArgument);
    }
    let c = vfs.content(ino);
    let len = c.len();
    let o = off as usize;
    let mut out: Vec<u8> = Vec::new();
    let head_end = if o <= len { o } else { len };
    let mut i: usize = 0;
    while i < head_end
        invariant
            head_end <= c@.len(),
            i <= head_end,
            out@ == c@.take(i as int),
        decreases head_end - i,
    {
        out.push(c[i]);
        i = i + 1;
        proof { assert(out@ =~= c@.take(i as int)); }
    }
    let mut z = len;
    while z < o
        invariant
            len == c@.len(),
            o > len ==> len <= z <= o,
            o <= len ==> z == len,
            out@ == c@.take(head_end as int) + zero_bytes((z - len) as nat),
        decreases o - z,
    {
        out.push(0u8);
        z = z + 1;
        proof { assert(out@ =~= c@.take(head_end as int) + zero_bytes((z - len) as nat)); }
    }
    let mut j: usize = 0;
    let ghost h = out@;
    while j < d.len()
        invariant
            j <= d@.len(),
            out@ == h + d@.take(j as int),
        decreases d@.len() - j,
    {
        out.push(d[j]);
        j = j + 1;
        proof { assert(out@ =~= h + d@.take(j as int)); }
    }
    let ghost hd = out@;
    let tail_start = o + d.len();
    if tail_start < len {
        let mut k = tail_start;
        while k < len
            invariant
                len == c@.len(),
                tail_start <= k <= len,
                out@ == hd + c@.subrange(tail_start as int, k as int),
            decreases len - k,
        {
            out.push(c[k]);
            k = k + 1;
            proof { assert(out@ =~= hd + c@.subrange(tail_start as int, k as int)); }
        }
        proof {
            assert(c@.subrange(tail_start as int, len as int) =~= c@.skip(tail_start as int));
        }
    }
    proof {
        assert(d@.take(d@.len() as int) =~= d@);
        if o <= len {
            assert(c@.take(head_end as int) + zero_bytes(0) =~= c@.take(o as int));
        } else {
            assert(c@.take(head_end as int) =~= c@);
        }
        assert(out@ =~= write_range(c@, off as int, d@));
    }
    vfs.set_content(ino, out.as_slice());
    Ok(d.len())
}

/// Who carries out a transfer.
#[derive(Clone, Copy, Debug, PartialEq, Eq, Structural)]
pub enum IoOutcome {
    /// Done here: the result of the call.
    Done(isize),
    /// The file is a device, pipe or socket: its driver carries it out,
    /// on the open file with this id.
    Driver(u64),
}

/// The open file behind descriptor `fd`, with its id.
pub open spec fn open_file(fs: &FileSystem, t: Seq<Option<FdEntry>>, fd: usize) -> Option<(u64, OpenFile)> {
    match entry(t, fd as int) {
        Some(e) => match fs.file(e.file) {
            Some(f) => Some((e.file, f)),
            None => None,
        },
        None => None,
    }
}

fn get_open_file(fs: &FileSystem, fdt: &FdTable, fd: usize) -> (r: Option<(u64, OpenFile)>)
    requires
        fs.wf(),
    ensures
        r == open_file(fs, fdt@, fd),
        r matches Some((_id, f)) ==> (f.has_dentry() ==> fs.vfs.valid(f.ino)),
{
    match fdt.get(fd) {
        Err(_) => None,
        Ok(e) => match fs.get_file(e.file) {
            Some(f) => Some((e.file, f)),
            None => None,
        },
    }
}

/// `read` of up to `count` bytes from `fd`: the result and the bytes read.
/// A regular file of the tree is read at its offset, which moves past the
/// bytes read; a directory gives `EISDIR` and a file not open for reading
/// `EBADF`. Other files are read by their drivers.
pub fn read(fs: &mut FileSystem, fdt: &FdTable, fd: usize, count: usize) -> (r: (IoOutcome, Vec<u8>))
    requires
        old(fs).wf(),
    ensures
        final(fs).wf(),
        final(fs).vfs == old(fs).vfs,
        match open_file(old(fs), fdt@, fd) {
            None => r.0 == IoOutcome::Done(-EBADF as isize) && r.1@.len() == 0 && *final(fs) == *old(fs),
            Some((id, f)) => if f.kind != FileKind::Regular {
                r.0 == IoOutcome::Driver(id) && r.1@.len() == 0 && *final(fs) == *old(fs)
            } else if !can_read(f) {
                r.0 == IoOutcome::Done(-EBADF as isize) && r.1@.len() == 0 && *final(fs) == *old(fs)
            } else if old(fs).vfs.inodes()[f.ino as int].itype == InodeType::Directory {
                r.0 == IoOutcome::Done(-crate::errno::EISDIR as isize) && r.1@.len() == 0 && *final(fs) == *old(fs)
            } else {
                &&& r.1@ == read_range(old(fs).vfs.link(f.ino), f.offset as int, count as int)
                &&& r.0 == IoOutcome::Done(r.1@.len() as isize)
                &&& final(fs).files@ == old(fs).files@.update(id as int, OpenFile { offset: (f.offset + r.1@.len()) as u64, ..f })
            },
        },
{
    let (id, f) = match get_open_file(fs, fdt, fd) {
        None => return (IoOutcome::Done(-(EBADF as isize)), Vec::new()),
        Some(x) => x,
    };
    if f.kind != FileKind::Regular {
        return (IoOutcome::Driver(id), Vec::new());
    }
    if f.flags & O_ACCMODE == O_WRONLY {
        return (IoOutcome::Done(-(EBADF as isize)), Vec::new());
    }
    match regular_read_at(&fs.vfs, f.ino, f.offset, count) {
        Err(e) => (IoOutcome::Done(e.to_errno()), Vec::new()),
        Ok(b) => {
            proof {
                assert(b@.len() <= fs.vfs.link(f.ino).len());
                assert(b@.len() > 0 ==> f.offset + b@.len() <= fs.vfs.link(f.ino).len());
            }
            let clen = fs.vfs.content(f.ino).len();
            let n = b.len();
            let new_off = if n == 0 { f.offset } else { f.offset + n as u64 };
            fs.set_offset(id, new_off);
            #[verifier::truncate]
            let rn = n as isize;
            (IoOutcome::Done(rn), b)
        },
    }
}

/// `write` of `data` to `fd`. A regular file of the tree is written at its
/// offset (at its end when opened for appending), and the offset moves
/// past the bytes written; a directory gives `EISDIR`, a symbolic link
/// `EINVAL`, a file not open for writing `EBADF`, a write past the largest
/// offset `ENOSPC`. Other files are written by their drivers.
pub fn write(fs: &mut FileSystem, fdt: &FdTable, fd: usize, data: &[u8]) -> (r: IoOutcome)
    requires
        old(fs).wf(),
    ensures
        final(fs).wf(),
        match open_file(old(fs), fdt@, fd) {
            None => r == IoOutcome::Done(-EBADF as isize) && *final(fs) == *old(fs),
            Some((id, f)) => if f.kind != FileKind::Regular {
                r == IoOutcome::Driver(id) && *final(fs) == *old(fs)
            } else if !can_write(f) {
                r == IoOutcome::Done(-EBADF as isize) && *final(fs) == *old(fs)
            } else {
                let t = old(fs).vfs.inodes()[f.ino as int].itype;
                let pos = if f.flags & O_APPEND != 0 { old(fs).vfs.link(f.ino).len() as int } else { f.offset as int };
                if t == InodeType::Directory {
                    r == IoOutcome::Done(-crate::errno::EISDIR as isize) && *final(fs) == *old(fs)
                } else if t != InodeType::File {
                    r == IoOutcome::Done(-EINVAL as isize) && *final(fs) == *old(fs)
                } else if pos + data@.len() > usize::MAX {
                    r == IoOutcome::Done(-crate::errno::ENOSPC as isize) && *final(fs) == *old(fs)
                } else {
                    &&& r == IoOutcome::Done(data@.len() as isize)
                    &&& final(fs).vfs.link(f.ino) == write_range(old(fs).vfs.link(f.ino), pos, data@)
                    &&& forall|n: u64| n != f.ino && old(fs).vfs.valid(n) ==> #[trigger] final(fs).vfs.link(n) == old(fs).vfs.link(n)
                    &&& final(fs).vfs.dir() == old(fs).vfs.dir()
                    &&& final(fs).files@ == old(fs).files@.update(id as int, OpenFile { offset: (pos + data@.len()) as u64, ..f })
                }
            },
        },
{
    let (id, f) = match get_open_file(fs, fdt, fd) {
        None => return IoOutcome::Done(-(EBADF as isize)),
        Some(x) => x,
    };
    if f.kind != FileKind::Regular {
        return IoOutcome::Driver(id);
    }
    if f.flags & O_ACCMODE == O_RDONLY {
        return IoOutcome::Done(-(EBADF as isize));
    }
    let t = fs.vfs.inode_type(f.ino);
    if t == InodeType::Directory {
        return IoOutcome::Done(-(crate::errno::EISDIR as isize));
    }
    if t != InodeType::File {
        return IoOutcome::Done(-(EINVAL as isize));
    }
    let pos: u64 = if f.flags & O_APPEND != 0 { fs.vfs.content(f.ino).len() as u64 } else { f.offset };
    if pos as u128 + data.len() as u128 > usize::MAX as u128 {
        return IoOutcome::Done(-(crate::errno::ENOSPC as isize));
    }
    let ghost fs0 = *fs;
    let _ = regular_write_at(&mut fs.vfs, f.ino, pos, data);
    proof {
        FileSystem::lemma_wf_after_vfs(fs0, *fs);
    }
    fs.set_offset(id, pos + data.len() as u64);
    #[verifier::truncate]
    let rn = data.len() as isize;
    IoOutcome::Done(rn)
}

/// `pread64`: `read` at `offset` without moving the file offset; a
/// negative offset is invalid.
pub fn pread64(fs: &FileSystem, fdt: &FdTable, fd: usize, count: usize, offset: i64) -> (r: (IoOutcome, Vec<u8>))
    requires
        fs.wf(),
    ensures
        offset < 0 ==> r.0 == IoOutcome::Done(-EINVAL as isize) && r.1@.len() == 0,
        offset >= 0 ==> match open_file(fs, fdt@, fd) {
            None => r.0 == IoOutcome::Done(-EBADF as isize) && r.1@.len() == 0,
            Some((id, f)) => if f.kind != FileKind::Regular {
                r.0 == IoOutcome::Driver(id) && r.1@.len() == 0
            } else if !can_read(f) {
                r.0 == IoOutcome::Done(-EBADF as isize) && r.1@.len() == 0
            } else if fs.vfs.inodes()[f.ino as int].itype == InodeType::Directory {
                r.0 == IoOutcome::Done(-crate::errno::EISDIR as isize) && r.1@.len() == 0
            } else {
                r.1@ == read_range(fs.vfs.link(f.ino), offset as int, count as int) && r.0 == IoOutcome::Done(r.1@.len() as isize)
            },
        },
{
    if offset < 0 {
        return (IoOutcome::Done(-(EINVAL as isize)), Vec::new());
    }
    let (id, f) = match get_open_file(fs, fdt, fd) {
        None => return (IoOutcome::Done(-(EBADF as isize)), Vec::new()),
        Some(x) => x,
    };
    if f.kind != FileKind::Regular {
        return (IoOutcome::Driver(id), Vec::new());
    }
    if f.flags & O_ACCMODE == O_WRONLY {
        return (IoOutcome::Done(-(EBADF as isize)), Vec::new());
    }
    match regular_read_at(&fs.vfs, f.ino, offset as u64, count) {
        Err(e) => (IoOutcome::Done(e.to_errno()), Vec::new()),
        Ok(b) => {
            let n = b.len();
            #[verifier::truncate]
            let rn = n as isize;
            (IoOutcome::Done(rn), b)
        },
    }
}

/// `pwrite64`: `write` at `offset` without moving the file offset; a
/// negative offset is invalid.
pub fn pwrite64(fs: &mut FileSystem, fdt: &FdTable, fd: usize, data: &[u8], offset: i64) -> (r: IoOutcome)
    requires
        old(fs).wf(),
    ensures
        final(fs).wf(),
        final(fs).files@ == old(fs).files@,
        offset < 0 ==> r == IoOutcome::Done(-EINVAL as isize) && *final(fs) == *old(fs),
        offset >= 0 ==> match open_file(old(fs), fdt@, fd) {
            None => r == IoOutcome::Done(-EBADF as isize) && *final(fs) == *old(fs),
            Some((id, f)) => if f.kind != FileKind::Regular {
                r == IoOutcome::Driver(id) && *final(fs) == *old(fs)
            } else if !can_write(f) {
                r == IoOutcome::Done(-EBADF as isize) && *final(fs) == *old(fs)
            } else {
                let t = old(fs).vfs.inodes()[f.ino as int].itype;
                if t == InodeType::Directory {
                    r == IoOutcome::Done(-crate::errno::EISDIR as isize) && *final(fs) == *old(fs)
                } else if t != InodeType::File {
                    r == IoOutcome::Done(-EINVAL as isize) && *final(fs) == *old(fs)
                } else if offset + data@.len() > usize::MAX {
                    r == IoOutcome::Done(-crate::errno::ENOSPC as isize) && *final(fs) == *old(fs)
                } else {
                    &&& r == IoOutcome::Done(data@.len() as isize)
                    &&& final(fs).vfs.link(f.ino) == write_range(old(fs).vfs.link(f.ino), offset as int, data@)
                    &&& forall|n: u64| n != f.ino && old(fs).vfs.valid(n) ==> #[trigger] final(fs).vfs.link(n) == old(fs).vfs.link(n)
                }
            },
        },
{
    if offset < 0 {
        return IoOutcome::Done(-(EINVAL as isize));
    }
    let (id, f) = match get_open_file(fs, fdt, fd) {
        None => return IoOutcome::Done(-(EBADF as isize)),
        Some(x) => x,
    };
    if f.kind != FileKind::Regular {
        return IoOutcome::Driver(id);
    }
    if f.flags & O_ACCMODE == O_RDONLY {
        return IoOutcome::Done(-(EBADF as isize));
    }
    let t = fs.vfs.inode_type(f.ino);
    if t == InodeType::Directory {
        return IoOutcome::Done(-(crate::errno::EISDIR as isize));
    }
    if t != InodeType::File {
        return IoOutcome::Done(-(EINVAL as isize));
    }
    if offset as u128 + data.len() as u128 > usize::MAX as u128 {
        return IoOutcome::Done(-(crate::errno::ENOSPC as isize));
    }
    let ghost fs0 = *fs;
    let _ = regular_write_at(&mut fs.vfs, f.ino, offset as u64, data);
    proof {
        FileSystem::lemma_wf_after_vfs(fs0, *fs);
    }
    #[verifier::truncate]
    let rn = data.len() as isize;
    IoOutcome::Done(rn)
}

/// The most segments a vectored transfer takes.
pub const IOV_MAX: usize = 1024;

/// The checks of `readv`, `writev`, `preadv` and `pwritev` before any
/// transfer: a segment list, 1 to 1024 segments, and a non-negative offset
/// for the positioned forms.
pub fn iov_check(iov_null: bool, iovcnt: usize, offset: Option<i64>) -> (r: Result<(), isize>)
    ensures
        r is Ok <==> (!iov_null && 1 <= iovcnt <= IOV_MAX && !(offset matches Some(o) && o < 0)),
        r matches Err(e) ==> e == -EINVAL as isize,
{
    if iov_null || iovcnt == 0 || iovcnt > IOV_MAX {
        return Err(-(EINVAL as isize));
    }
    match offset {
        Some(o) => if o < 0 { return Err(-(EINVAL as isize)); },
        None => {},
    }
    Ok(())
}

/// One segment of a vectored transfer: its user address, its length, and
/// whether the address is a valid user buffer.
#[derive(Clone, Copy)]
pub struct IoSeg {
    pub base: u64,
    pub len: usize,
    pub valid: bool,
}

/// What to do with the next segment.
#[derive(Clone, Copy, Debug, PartialEq, Eq, Structural)]
pub enum SegStep {
    /// An empty or null segment: go on with the next one.
    Skip,
    /// Transfer it.
    Transfer,
    /// Stop: the call returns this.
    Finish(isize),
}

/// Before a segment, with `total` bytes moved so far: empty and null
/// segments are skipped; an invalid buffer ends the call with the bytes
/// moved so far, or `EFAULT` when there are none.
pub fn seg_begin(total: usize, seg: IoSeg) -> (r: SegStep)
    requires
        total <= isize::MAX,
    ensures
        seg.base == 0 || seg.len == 0 ==> r == SegStep::Skip,
        seg.base != 0 && seg.len != 0 && !seg.valid ==> r == SegStep::Finish(if total > 0 { total as isize } else { -EFAULT as isize }),
        seg.base != 0 && seg.len != 0 && seg.valid ==> r == SegStep::Transfer,
{
    if seg.base == 0 || seg.len == 0 {
        return SegStep::Skip;
    }
    if !seg.valid {
        return SegStep::Finish(if total > 0 { total as isize } else { -(EFAULT as isize) });
    }
    SegStep::Transfer
}

/// After a segment of `len` bytes whose transfer gave `result`: the running
/// total grows by the bytes moved, and a short transfer ends the call with
/// the total; an error ends it with the total, or the error when nothing
/// moved yet. `Ok` carries the new total to go on with.
pub fn seg_end(total: usize, len: usize, result: Result<usize, FsError>) -> (r: Result<usize, isize>)
    requires
        total <= isize::MAX,
        result matches Ok(n) ==> total + n <= isize::MAX,
    ensures
        match result {
            Ok(n) => if n < len { r == Err::<usize, isize>((total + n) as isize) } else { r == Ok::<usize, isize>((total + n) as usize) },
            Err(e) => r == Err::<usize, isize>(if total > 0 { total as isize } else { -e.errno() as isize }),
        },
{
    match result {
        Ok(n) => {
            if n < len {
                Err((total + n) as isize)
            } else {
                Ok(total + n)
            }
        },
        Err(e) => Err(if total > 0 { total as isize } else { e.to_errno() }),
    }
}

/// `sendfile` moves at most this much per round.
pub const SENDFILE_CHUNK: usize = 8192;

/// The state of a `sendfile` in progress: bytes sent, bytes still asked
/// for, and the input offset when the caller gave one.
#[derive(Clone, Copy)]
pub struct SendfileState {
    pub total: usize,
    pub remaining: usize,
    pub offset: Option<u64>,
}

/// Starts `sendfile`: a given input offset must not be negative.
pub fn sendfile_start(offset: Option<i64>, count: usize) -> (r: Result<SendfileState, isize>)
    ensures
        offset matches Some(o) && o < 0 ==> r == Err::<SendfileState, isize>(-EINVAL as isize),
        !(offset matches Some(o) && o < 0) ==> (r matches Ok(st) && st.total == 0 && st.remaining == count
            && st.offset == match offset { Some(o) => Some(o as u64), None => None }),
{
    let off = match offset {
        Some(o) => {
            if o < 0 {
                return Err(-(EINVAL as isize));
            }
            Some(o as u64)
        },
        None => None,
    };
    Ok(SendfileState { total: 0, remaining: count, offset: off })
}

/// How many bytes the next round reads, if any is left.
pub fn sendfile_next(st: SendfileState) -> (r: Option<usize>)
    ensures
        st.remaining == 0 ==> r is None,
        st.remaining > 0 ==> r == Some(if st.remaining < SENDFILE_CHUNK { st.remaining } else { SENDFILE_CHUNK }),
{
    if st.remaining == 0 {
        None
    } else if st.remaining < SENDFILE_CHUNK {
        Some(st.remaining)
    } else {
        Some(SENDFILE_CHUNK)
    }
}

/// After the read of a round: end of input finishes, an error ends the
/// call (with the bytes sent so far when there are some), else the bytes
/// read are written (`Ok`).
pub fn sendfile_after_read(st: SendfileState, result: Result<usize, FsError>) -> (r: Result<usize, isize>)
    requires
        st.total <= isize::MAX,
    ensures
        result == Ok::<usize, FsError>(0) ==> r == Err::<usize, isize>(st.total as isize),
        result matches Ok(n) ==> (n > 0 ==> r == Ok::<usize, isize>(n)),
        result matches Err(e) ==> r == Err::<usize, isize>(if st.total > 0 { st.total as isize } else { -e.errno() as isize }),
{
    match result {
        Ok(0) => Err(st.total as isize),
        Ok(n) => Ok(n),
        Err(e) => Err(if st.total > 0 { st.total as isize } else { e.to_errno() }),
    }
}

/// After the write of a round that read `n_read` bytes: the bytes written
/// count as sent and move the input offset; a short write ends the call;
/// an error ends it with the bytes sent so far, or the error.
pub fn sendfile_after_write(st: SendfileState, n_read: usize, result: Result<usize, FsError>) -> (r: Result<SendfileState, isize>)
    requires
        st.total <= isize::MAX,
        result matches Ok(w) ==> w <= n_read && w <= st.remaining && st.total + w <= isize::MAX
            && (st.offset matches Some(o) ==> o + w <= u64::MAX),
    ensures
        match result {
            Ok(w) => {
                let next = SendfileState {
                    total: (st.total + w) as usize,
                    remaining: (st.remaining - w) as usize,
                    offset: match st.offset { Some(o) => Some((o + w) as u64), None => None },
                };
                if w < n_read { r == Err::<SendfileState, isize>((st.total + w) as isize) } else { r == Ok::<SendfileState, isize>(next) }
            },
            Err(e) => r == Err::<SendfileState, isize>(if st.total > 0 { st.total as isize } else { -e.errno() as isize }),
        },
{
    match result {
        Ok(w) => {
            let next = SendfileState {
                total: st.total + w,
                remaining: st.remaining - w,
                offset: match st.offset { Some(o) => Some(o + w as u64), None => None },
            };
            if w < n_read { Err(next.total as isize) } else { Ok(next) }
        },
        Err(e) => Err(if st.total > 0 { st.total as isize } else { e.to_errno() }),
    }
}

/// One entry of the `ppoll` array.
#[derive(Clone, Copy, Debug, PartialEq, Eq, Structural)]
pub struct PollFd {
    pub fd: i32,
    pub events: i16,
    pub revents: i16,
}

pub const POLLIN: i16 = 0x0001;
pub const POLLOUT: i16 = 0x0004;
pub const POLLERR: i16 = 0x0008;
pub const POLLHUP: i16 = 0x0010;
pub const POLLNVAL: i16 = 0x0020;

/// The events `ppoll` reports for one entry: none for a negative
/// descriptor, `POLLNVAL` for one that is not open, else the asked-for
/// `POLLIN` and `POLLOUT` that the file's access mode allows.
pub open spec fn poll_revents(fs: &FileSystem, t: Seq<Option<FdEntry>>, p: PollFd) -> i16 {
    if p.fd < 0 {
        0
    } else {
        match open_file(fs, t, p.fd as usize) {
            None => POLLNVAL,
            Some((_id, f)) => (if p.events & POLLIN != 0 && can_read(f) { POLLIN } else { 0i16 })
                | (if p.events & POLLOUT != 0 && can_write(f) { POLLOUT } else { 0i16 }),
        }
    }
}

pub open spec fn ready_count(fs: &FileSystem, t: Seq<Option<FdEntry>>, ps: Seq<PollFd>, n: int) -> int
    decreases n,
{
    if n <= 0 { 0 } else { ready_count(fs, t, ps, n - 1) + if poll_revents(fs, t, ps[n - 1]) != 0 { 1int } else { 0 } }
}

/// One scan of `ppoll`: fills in every entry's reported events and returns
/// how many entries report some.
pub fn ppoll_scan(fs: &FileSystem, fdt: &FdTable, pfds: &mut Vec<PollFd>) -> (n: usize)
    requires
        fs.wf(),
    ensures
        final(pfds)@.len() == old(pfds)@.len(),
        forall|i: int| 0 <= i < old(pfds)@.len() ==> #[trigger] final(pfds)@[i] == (PollFd {
            revents: poll_revents(fs, fdt@, old(pfds)@[i]), ..old(pfds)@[i] }),
        n == ready_count(fs, fdt@, old(pfds)@, old(pfds)@.len() as int),
{
    let mut count: usize = 0;
    let mut i: usize = 0;
    while i < pfds.len()
        invariant
            fs.wf(),
            i <= pfds@.len(),
            pfds@.len() == old(pfds)@.len(),
            forall|j: int| i <= j < pfds@.len() ==> #[trigger] pfds@[j] == old(pfds)@[j],
            forall|j: int| 0 <= j < i ==> #[trigger] pfds@[j] == (PollFd { revents: poll_revents(fs, fdt@, old(pfds)@[j]), ..old(pfds)@[j] }),
            count == ready_count(fs, fdt@, old(pfds)@, i as int),
            count <= i,
        decreases pfds@.len() - i,
    {
        let p = pfds[i];
        let rev: i16 = if p.fd < 0 {
            0
        } else {
            match get_open_file(fs, fdt, p.fd as usize) {
                None => POLLNVAL,
                Some((_id, f)) => {
                    let a: i16 = if p.events & POLLIN != 0 && f.flags & O_ACCMODE != O_WRONLY { POLLIN } else { 0 };
                    let b: i16 = if p.events & POLLOUT != 0 && f.flags & O_ACCMODE != O_RDONLY { POLLOUT } else { 0 };
                    a | b
                },
            }
        };
        pfds.set(i, PollFd { revents: rev, ..p });
        if rev != 0 {
            count = count + 1;
        }
        i = i + 1;
    }
    count
}

/// The `ppoll` timeout in milliseconds: none for no timeout or a negative
/// one, else seconds and nanoseconds rounded down to milliseconds.
pub fn ppoll_timeout_ms(ts: Option<(i64, i64)>) -> (r: Option<u64>)
    ensures
        match ts {
            None => r is None,
            Some((s, ns)) => if s < 0 { r is None } else {
                r == Some(vstd::wrapping::u64_specs::wrapping_add(
                    vstd::wrapping::u64_specs::wrapping_mul(s as u64, 1000), ((ns as u64) / 1_000_000) as u64))
            },
        },
{
    match ts {
        None => None,
        Some((s, ns)) => {
            if s < 0 {
                None
            } else {
                #[verifier::truncate]
                let nsu = ns as u64;
                Some((s as u64).wrapping_mul(1000).wrapping_add(nsu / 1_000_000))
            }
        },
    }
}

/// After a scan: entries ready end the call with their count; an expired
/// timeout ends it with 0; otherwise the caller yields and scans again.
pub fn ppoll_decide(ready: usize, timeout_ms: Option<u64>, elapsed_ms: u64) -> (r: Option<isize>)
    requires
        ready <= isize::MAX,
    ensures
        ready > 0 ==> r == Some(ready as isize),
        ready == 0 && (timeout_ms matches Some(t) && elapsed_ms >= t) ==> r == Some(0isize),
        ready == 0 && !(timeout_ms matches Some(t) && elapsed_ms >= t) ==> r is None,
{
    if ready > 0 {
        return Some(ready as isize);
    }
    match timeout_ms {
        Some(t) => if elapsed_ms >= t { Some(0) } else { None },
        None => None,
    }
}

proof fn lemma_ready_count_bound(fs: &FileSystem, t: Seq<Option<FdEntry>>, ps: Seq<PollFd>, n: int)
    ensures
        0 <= ready_count(fs, t, ps, n) <= if n < 0 { 0 } else { n },
    decreases n,
{
    if n > 0 {
        lemma_ready_count_bound(fs, t, ps, n - 1);
    }
}

/// One pass of `ppoll`: scans the entries (see `ppoll_scan`), then decides
/// as `ppoll_decide` does whether the call ends (`Some`) or the caller
/// yields and comes back.
pub fn ppoll(fs: &FileSystem, fdt: &FdTable, pfds: &mut Vec<PollFd>, timeout_ms: Option<u64>, elapsed_ms: u64)
    -> (r: Option<isize>)
    requires
        fs.wf(),
        old(pfds)@.len() <= isize::MAX,
    ensures
        final(pfds)@.len() == old(pfds)@.len(),
        forall|i: int| 0 <= i < old(pfds)@.len() ==> #[trigger] final(pfds)@[i] == (PollFd {
            revents: poll_revents(fs, fdt@, old(pfds)@[i]), ..old(pfds)@[i] }),
        ({
            let ready = ready_count(fs, fdt@, old(pfds)@, old(pfds)@.len() as int);
            &&& ready > 0 ==> r == Some(ready as isize)
            &&& ready == 0 && (timeout_ms matches Some(t) && elapsed_ms >= t) ==> r == Some(0isize)
            &&& ready == 0 && !(timeout_ms matches Some(t) && elapsed_ms >= t) ==> r is None
        }),
{
    let n = ppoll_scan(fs, fdt, pfds);
    proof {
        lemma_ready_count_bound(fs, fdt@, old(pfds)@, old(pfds)@.len() as int);
    }
    ppoll_decide(n, timeout_ms, elapsed_ms)
}

/// `ppoll` needs an array of at least one entry.
pub fn ppoll_check(fds: u64, nfds: usize) -> (r: Result<(), isize>)
    ensures
        (fds == 0 || nfds == 0) ==> r == Err::<(), isize>(-EINVAL as isize),
        !(fds == 0 || nfds == 0) ==> r is Ok,
{
    if fds == 0 || nfds == 0 { Err(-(EINVAL as isize)) } else { Ok(()) }
}

} // verus!
