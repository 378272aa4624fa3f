//! `getdents64`: directory entries packed as `struct linux_dirent64`
//! records into the caller's buffer.

use vstd::prelude::*;
use crate::errno::FsError;
use crate::fd_table::{FdTable, entry};
use crate::file::FileSystem;
use crate::vfs::{InodeType, Vfs};
use crate::syscall::fs::err_ret;
use crate::syscall::ifaddrs::{le64, le64_exec, zeros, zeros_exec};

verus! {

/// The size of a record's fixed part: inode, offset, length and type.
pub const DIRENT_HEADER: usize = 19;

/// The length of the record for a name of `n` bytes: the fixed part, the
/// name and its terminating NUL, rounded up to a multiple of 8.
pub open spec fn dirent_len(n: nat) -> nat {
    (((DIRENT_HEADER + n + 1 + 7) / 8) * 8) as nat
}

/// The `d_type` of an inode type.
pub open spec fn d_type(t: InodeType) -> u8 {
    match t {
        InodeType::Fifo => 1,
        InodeType::CharDevice => 2,
        InodeType::Directory => 4,
        InodeType::BlockDevice => 6,
        InodeType::File => 8,
        InodeType::Symlink => 10,
        InodeType::Socket => 12,
    }
}

proof fn lemma_fit_step(ents: Seq<Dent>, i: int, room: int)
    requires
        0 <= i < ents.len(),
        dirent_len(ents[i].0.len()) <= room,
    ensures
        fit(ents, i, room) == 1 + fit(ents, i + 1, room - dirent_len(ents[i].0.len())),
{
    reveal(fit);
}

proof fn lemma_fit_bound(ents: Seq<Dent>, i: int, room: int)
    requires
        0 <= i,
    ensures
        fit(ents, i, room) <= if i < ents.len() { ents.len() - i } else { 0 },
    decreases ents.len() - i,
{
    reveal(fit);
    if i < ents.len() && dirent_len(ents[i].0.len()) <= room {
        lemma_fit_bound(ents, i + 1, room - dirent_len(ents[i].0.len()));
    }
}

proof fn lemma_fit_stop(ents: Seq<Dent>, i: int, room: int)
    requires
        i >= ents.len() || (0 <= i && dirent_len(ents[i].0.len()) > room),
    ensures
        fit(ents, i, room) == 0,
{
    reveal(fit);
}

proof fn lemma_packed_step(ents: Seq<Dent>, i: int, k: int)
    requires
        k >= 0,
    ensures
        packed(ents, i, k + 1) == packed(ents, i, k) + dirent_bytes(ents[i + k].1, (i + k + 1) as u64, ents[i + k].0, ents[i + k].2),
{
    reveal(packed);
}

proof fn lemma_packed_zero(ents: Seq<Dent>, i: int)
    ensures
        packed(ents, i, 0) == Seq::<u8>::empty(),
{
    reveal(packed);
}

proof fn lemma_dirent_len(n: nat)
    ensures
        n + 20 <= dirent_len(n) <= n + 27,
{
    let x = DIRENT_HEADER + n + 8;
    assert((x / 8) * 8 <= x && (x / 8) * 8 > x - 8) by (nonlinear_arith);
}

fn d_type_exec(t: InodeType) -> (r: u8)
    ensures
        r == d_type(t),
{
    match t {
        InodeType::Fifo => 1,
        InodeType::CharDevice => 2,
        InodeType::Directory => 4,
        InodeType::BlockDevice => 6,
        InodeType::File => 8,
        InodeType::Symlink => 10,
        InodeType::Socket => 12,
    }
}

pub open spec fn le16(x: u16) -> Seq<u8> {
    seq![(x % 0x100) as u8, (x / 0x100) as u8]
}

/// One record: inode number, offset of the next record (the index of the
/// entry after this one), record length, type, the name, then zero bytes
/// (the NUL and the padding).
pub open spec fn dirent_bytes(ino: u64, next: u64, name: Seq<u8>, dtype: u8) -> Seq<u8> {
    le64(ino) + le64(next) + le16(dirent_len(name.len()) as u16) + seq![dtype] + name
        + zeros((dirent_len(name.len()) - DIRENT_HEADER - name.len()) as nat)
}

/// A directory entry as `getdents64` reports it: name, inode and type.
pub type Dent = (Seq<u8>, u64, u8);

/// How many entries from index `i` on fit in `room` bytes, taken in order
/// until the first that does not fit.
#[verifier::opaque]
pub open spec fn fit(ents: Seq<Dent>, i: int, room: int) -> nat
    decreases ents.len() - i,
{
    if i < 0 || i >= ents.len() || dirent_len(ents[i].0.len()) > room {
        0
    } else {
        1 + fit(ents, i + 1, room - dirent_len(ents[i].0.len()))
    }
}

/// The records of the `k` entries from index `i` on.
#[verifier::opaque]
pub open spec fn packed(ents: Seq<Dent>, i: int, k: int) -> Seq<u8>
    decreases k,
{
    if k <= 0 {
        Seq::empty()
    } else {
        packed(ents, i, k - 1) + dirent_bytes(ents[i + k - 1].1, (i + k) as u64, ents[i + k - 1].0, ents[i + k - 1].2)
    }
}

pub open spec fn dents_view(v: Seq<(Vec<u8>, u64, u8)>) -> Seq<Dent> {
    v.map_values(|e: (Vec<u8>, u64, u8)| (e.0@, e.1, e.2))
}

fn dirent_exec(ino: u64, next: u64, name: &Vec<u8>, dtype: u8, reclen: usize, out: &mut Vec<u8>)
    requires
        reclen == dirent_len(name@.len()),
    ensures
        final(out)@ == old(out)@ + dirent_bytes(ino, next, name@, dtype),
{
    le64_exec(ino, out);
    le64_exec(next, out);
    #[verifier::truncate]
    let rl = reclen as u16;
    out.push((rl % 0x100) as u8);
    out.push((rl / 0x100) as u8);
    out.push(dtype);
    let ghost before = out@;
    let mut name_copy = name.clone();
    out.append(&mut name_copy);
    proof {
        assert(out@ == before + name@);
    }
    zeros_exec(reclen - DIRENT_HEADER - name.len(), out);
    proof {
        assert(out@ =~= old(out)@ + dirent_bytes(ino, next, name@, dtype));
    }
}

/// Packs the entries from index `start` on into at most `count` bytes:
/// as many whole records as fit, in order, and how many that is.
pub fn pack_dirents(ents: &Vec<(Vec<u8>, u64, u8)>, start: usize, count: usize) -> (r: (Vec<u8>, usize))
    requires
        count <= isize::MAX,
    ensures
        r.1 == fit(dents_view(ents@), start as int, count as int),
        r.0@ == packed(dents_view(ents@), start as int, r.1 as int),
        r.0@.len() <= count,
{
    let ghost v = dents_view(ents@);
    let mut out: Vec<u8> = Vec::new();
    proof { lemma_packed_zero(v, start as int); }
    let mut i: usize = start;
    let mut items: usize = 0;
    let mut written: usize = 0;
    loop
        invariant_except_break
            count <= isize::MAX,
            start <= i,
            items == i - start,
            written == out@.len(),
            written <= count,
            v == dents_view(ents@),
            out@ == packed(v, start as int, items as int),
            fit(v, start as int, count as int) == items + fit(v, i as int, count - written),
        ensures
            written == out@.len(),
            written <= count,
            out@ == packed(v, start as int, items as int),
            fit(v, start as int, count as int) == items,
        decreases ents@.len() - i,
    {
        if i >= ents.len() {
            proof { lemma_fit_stop(v, i as int, count - written); }
            break;
        }
        let name = &ents[i].0;
        let room = count - written;
        proof {
            assert(v[i as int].0 == name@);
            lemma_dirent_len(name@.len());
        }
        if name.len() >= room {
            proof { lemma_fit_stop(v, i as int, room as int); }
            break;
        }
        let reclen = ((DIRENT_HEADER + name.len() + 1 + 7) / 8) * 8;
        if reclen > room {
            proof { lemma_fit_stop(v, i as int, room as int); }
            break;
        }
        let ghost before = out@;
        dirent_exec(ents[i].1, (i + 1) as u64, name, ents[i].2, reclen, &mut out);
        proof {
            assert(v[i as int] == (ents@[i as int].0@, ents@[i as int].1, ents@[i as int].2));
            lemma_packed_step(v, start as int, items as int);
            lemma_fit_step(v, i as int, room as int);
        }
        written = written + reclen;
        items = items + 1;
        i = i + 1;
    }
    (out, items)
}

/// The entries of directory `dir` with their types, as `getdents64` lists them.
pub open spec fn dir_dents(vfs: &Vfs, dir: u64) -> Seq<Dent> {
    vfs.listing(dir).map_values(|e: (Seq<u8>, u64)| (e.0, e.1, d_type(vfs.inodes()[e.1 as int].itype)))
}

/// What `getdents64` fails with: `EINVAL` without a buffer or with no room;
/// `EBADF` for a descriptor that is not open; `ENOTSUP` for a file outside
/// the tree (a pipe or a socket); `ENOTDIR` for a file that is no directory.
pub open spec fn getdents_error(fs: &FileSystem, t: Seq<Option<crate::fd_table::FdEntry>>, fd: usize,
    dirp_null: bool, count: usize) -> Option<FsError> {
    if dirp_null || count == 0 {
        Some(FsError::InvalidArgument)
    } else {
        match entry(t, fd as int) {
            None => Some(FsError::BadFileDescriptor),
            Some(e) => match fs.file(e.file) {
                None => Some(FsError::BadFileDescriptor),
                Some(f) => if !f.has_dentry() {
                    Some(FsError::NotSupported)
                } else if !fs.vfs.is_dir(f.ino) {
                    Some(FsError::NotDirectory)
                } else {
                    None
                },
            },
        }
    }
}

/// `getdents64` on `fd` into a buffer of `count` bytes: the open file's
/// offset is the index of the first entry to report; as many records as
/// fit are returned (the bytes for the caller's buffer) with their total
/// length, and the offset moves past them.
pub fn getdents64(fs: &mut FileSystem, fdt: &FdTable, fd: usize, dirp_null: bool, count: usize)
    -> (r: (isize, Vec<u8>))
    requires
        old(fs).wf(),
        count <= isize::MAX,
    ensures
        final(fs).wf(),
        final(fs).vfs == old(fs).vfs,
        match getdents_error(old(fs), fdt@, fd, dirp_null, count) {
            Some(e) => r.0 == err_ret(e) && r.1@.len() == 0 && final(fs).files == old(fs).files,
            None => {
                let id = entry(fdt@, fd as int)->0.file;
                let f = old(fs).file(id)->0;
                let ents = dir_dents(&old(fs).vfs, f.ino);
                let n = fit(ents, f.offset as int, count as int);
                &&& r.1@ == packed(ents, f.offset as int, n as int)
                &&& r.0 == r.1@.len()
                &&& final(fs).files@ == if n > 0 {
                        old(fs).files@.update(id as int, crate::file::OpenFile { offset: (f.offset + n) as u64, ..f })
                    } else {
                        old(fs).files@
                    }
            },
        },
{
    if dirp_null || count == 0 {
        return (FsError::InvalidArgument.to_errno(), Vec::new());
    }
    let e = match fdt.get(fd) {
        Err(e) => return (e.to_errno(), Vec::new()),
        Ok(e) => e,
    };
    let f = match fs.get_file(e.file) {
        None => return (FsError::BadFileDescriptor.to_errno(), Vec::new()),
        Some(f) => f,
    };
    if !(f.kind == crate::file::FileKind::Regular || f.kind == crate::file::FileKind::CharDevice
        || f.kind == crate::file::FileKind::BlockDevice) {
        return (FsError::NotSupported.to_errno(), Vec::new());
    }
    if f.ino >= fs.vfs.inode_count() || fs.vfs.inode_type(f.ino) != InodeType::Directory {
        return (FsError::NotDirectory.to_errno(), Vec::new());
    }
    let listing = fs.vfs.readdir(f.ino);
    proof { fs.vfs.lemma_listing(f.ino); }
    let mut ents: Vec<(Vec<u8>, u64, u8)> = Vec::new();
    let mut j: usize = 0;
    while j < listing.len()
        invariant
            fs.wf(),
            j <= listing@.len(),
            listing@.len() == fs.vfs.listing(f.ino).len(),
            forall|i: int| 0 <= i < listing@.len() ==> (#[trigger] listing@[i]).0@ == fs.vfs.listing(f.ino)[i].0
                && listing@[i].1 == fs.vfs.listing(f.ino)[i].1,
            forall|i: int| 0 <= i < fs.vfs.listing(f.ino).len() ==> fs.vfs.valid(#[trigger] fs.vfs.listing(f.ino)[i].1),
            ents@.len() == j,
            forall|i: int| 0 <= i < j ==> #[trigger] dents_view(ents@)[i] == dir_dents(&fs.vfs, f.ino)[i],
        decreases listing@.len() - j,
    {
        let (name, ino) = (listing[j].0.clone(), listing[j].1);
        proof { assert(fs.vfs.valid(fs.vfs.listing(f.ino)[j as int].1)); }
        let t = d_type_exec(fs.vfs.inode_type(ino));
        let ghost before = ents@;
        ents.push((name, ino, t));
        proof {
            assert(name@ == listing@[j as int].0@);
            assert(dents_view(ents@)[j as int] == dir_dents(&fs.vfs, f.ino)[j as int]);
            assert forall|i: int| 0 <= i < j + 1 implies #[trigger] dents_view(ents@)[i] == dir_dents(&fs.vfs, f.ino)[i] by {
                if i < j {
                    assert(ents@[i] == before[i]);
                    assert(dents_view(before)[i] == dir_dents(&fs.vfs, f.ino)[i]);
                }
            }
        }
        j = j + 1;
    }
    proof {
        assert(dents_view(ents@) =~= dir_dents(&fs.vfs, f.ino));
    }
    let ghost ds = dir_dents(&fs.vfs, f.ino);
    if f.offset >= ents.len() as u64 {
        proof {
            lemma_fit_stop(ds, f.offset as int, count as int);
            lemma_packed_zero(ds, f.offset as int);
        }
        return (0, Vec::new());
    }
    let start = f.offset as usize;
    let (bytes, items) = pack_dirents(&ents, start, count);
    proof { lemma_fit_bound(ds, start as int, count as int); }
    if items > 0 {
        fs.set_offset(e.file, start as u64 + items as u64);
    }
    (bytes.len() as isize, bytes)
}

} // verus!
