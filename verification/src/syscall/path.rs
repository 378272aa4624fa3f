//! Path arguments of the `*at` system calls: splitting and resolution.

use vstd::prelude::*;
use crate::errno::FsError;
use crate::fd_table::{FdTable, FdEntry, entry};
use crate::file::{FileSystem, FsStruct, OpenFile, FileKind};
use crate::vfs::{InodeType, ROOT_INO, SLASH, DOT};

verus! {

/// `dirfd` value meaning "the working directory".
pub const AT_FDCWD: i32 = -100;
pub const AT_SYMLINK_NOFOLLOW: u32 = 0x100;
pub const AT_REMOVEDIR: u32 = 0x200;
pub const AT_SYMLINK_FOLLOW: u32 = 0x400;
pub const AT_NO_AUTOMOUNT: u32 = 0x800;
pub const AT_EMPTY_PATH: u32 = 0x1000;
/// Every `AT_*` flag bit.
pub const AT_ALL_FLAGS: u32 = 0x1f00;

/// `p` with its trailing separators removed.
pub open spec fn trim_end(p: Seq<u8>) -> Seq<u8>
    decreases p.len(),
{
    if p.len() > 0 && p.last() == SLASH { trim_end(p.drop_last()) } else { p }
}

/// The index of the last separator in `p`, or -1.
pub open spec fn last_slash(p: Seq<u8>) -> int
    decreases p.len(),
{
    if p.len() == 0 { -1 } else if p.last() == SLASH { p.len() - 1 } else { last_slash(p.drop_last()) }
}

/// A path split into the directory that holds its last component and that
/// component; trailing separators are ignored.
pub open spec fn split(p: Seq<u8>) -> Result<(Seq<u8>, Seq<u8>), FsError> {
    let q = trim_end(p);
    let i = last_slash(q);
    let name = q.subrange(i + 1, q.len() as int);
    let dir = if i < 0 { seq![DOT] } else if i == 0 { seq![SLASH] } else { q.subrange(0, i) };
    if name.len() == 0 { Err(FsError::InvalidArgument) } else { Ok((dir, name)) }
}

proof fn lemma_last_slash_bound(p: Seq<u8>)
    ensures
        -1 <= last_slash(p) < p.len(),
        last_slash(p) >= 0 ==> p[last_slash(p)] == SLASH,
    decreases p.len(),
{
    if p.len() > 0 && p.last() != SLASH {
        lemma_last_slash_bound(p.drop_last());
    }
}

/// Splits `path` into its directory part and its last component.
pub fn split_path(path: &[u8]) -> (r: Result<(Vec<u8>, Vec<u8>), FsError>)
    ensures
        match split(path@) {
            Ok((d, n)) => r matches Ok((rd, rn)) && rd@ == d && rn@ == n,
            Err(e) => r == Err::<(Vec<u8>, Vec<u8>), FsError>(e),
        },
{
    let mut end: usize = path.len();
    assert(path@.take(end as int) =~= path@);
    while end > 0 && path[end - 1] == SLASH
        invariant
            0 <= end <= path@.len(),
            trim_end(path@.take(end as int)) == trim_end(path@),
        decreases end,
    {
        assert(path@.take(end as int).drop_last() =~= path@.take(end - 1));
        end = end - 1;
    }
    let q = vstd::slice::slice_subrange(path, 0, end);
    assert(q@ =~= path@.take(end as int));
    assert(trim_end(q@) == q@);
    let mut j: usize = end;
    assert(q@.take(j as int) =~= q@);
    while j > 0 && q[j - 1] != SLASH
        invariant
            0 <= j <= q@.len(),
            last_slash(q@.take(j as int)) == last_slash(q@),
        decreases j,
    {
        assert(q@.take(j as int).drop_last() =~= q@.take(j - 1));
        j = j - 1;
    }
    proof {
        if j > 0 {
            assert(q@.take(j as int).last() == SLASH);
        }
        lemma_last_slash_bound(q@);
    }
    assert(last_slash(q@) == j - 1);
    let name = vstd::slice::slice_to_vec(vstd::slice::slice_subrange(q, j, end));
    if name.len() == 0 {
        return Err(FsError::InvalidArgument);
    }
    let dir = if j == 0 {
        let mut d = Vec::new();
        d.push(DOT);
        assert(d@ =~= seq![DOT]);
        d
    } else if j == 1 {
        let mut d = Vec::new();
        d.push(SLASH);
        assert(d@ =~= seq![SLASH]);
        d
    } else {
        vstd::slice::slice_to_vec(vstd::slice::slice_subrange(q, 0, j - 1))
    };
    Ok((dir, name))
}

/// The process context refers only to existing inodes.
pub open spec fn ctx_ok(fs: &FileSystem, ctx: FsStruct) -> bool {
    &&& ctx.cwd matches Some(c) ==> fs.vfs.valid(c)
    &&& ctx.root matches Some(c) ==> fs.vfs.valid(c)
}

/// The open file behind descriptor `fd` of table `t`.
pub open spec fn fd_file(fs: &FileSystem, t: Seq<Option<FdEntry>>, fd: i32) -> Result<OpenFile, FsError> {
    if fd < 0 {
        Err(FsError::BadFileDescriptor)
    } else {
        match entry(t, fd as int) {
            None => Err(FsError::BadFileDescriptor),
            Some(e) => match fs.file(e.file) {
                Some(f) => Ok(f),
                None => Err(FsError::BadFileDescriptor),
            },
        }
    }
}

/// The open file behind `fd`.
pub fn get_fd_file(fs: &FileSystem, fdt: &FdTable, fd: i32) -> (r: Result<OpenFile, FsError>)
    requires
        fs.wf(),
    ensures
        r == fd_file(fs, fdt@, fd),
        r matches Ok(f) ==> (f.has_dentry() ==> fs.vfs.valid(f.ino)),
{
    if fd < 0 {
        return Err(FsError::BadFileDescriptor);
    }
    match fdt.get(fd as usize) {
        Err(e) => Err(e),
        Ok(e) => match fs.get_file(e.file) {
            Some(f) => Ok(f),
            None => Err(FsError::BadFileDescriptor),
        },
    }
}

/// Where a path given with `dirfd` starts: the root for an absolute path,
/// the working directory for `AT_FDCWD` (`no_cwd` when there is none), else
/// the directory open as `dirfd`.
pub open spec fn at_base(fs: &FileSystem, ctx: FsStruct, t: Seq<Option<FdEntry>>, dirfd: i32,
    p: Seq<u8>, no_cwd: FsError) -> Result<u64, FsError> {
    if p.len() > 0 && p[0] == SLASH {
        Ok(ROOT_INO)
    } else if dirfd == AT_FDCWD {
        match ctx.cwd {
            Some(c) => Ok(c),
            None => Err(no_cwd),
        }
    } else {
        match fd_file(fs, t, dirfd) {
            Err(e) => Err(e),
            Ok(f) => if f.has_dentry() && fs.itype(f.ino) == InodeType::Directory {
                Ok(f.ino)
            } else {
                Err(FsError::NotDirectory)
            },
        }
    }
}

fn base_of(fs: &FileSystem, ctx: &FsStruct, fdt: &FdTable, dirfd: i32, p: &[u8], no_cwd: FsError)
    -> (r: Result<u64, FsError>)
    requires
        fs.wf(),
        ctx_ok(fs, *ctx),
    ensures
        r == at_base(fs, *ctx, fdt@, dirfd, p@, no_cwd),
        r matches Ok(b) ==> fs.vfs.valid(b),
{
    if p.len() > 0 && p[0] == SLASH {
        proof { fs.vfs.lemma_root(); }
        return Ok(ROOT_INO);
    }
    if dirfd == AT_FDCWD {
        return match ctx.cwd {
            Some(c) => Ok(c),
            None => Err(no_cwd),
        };
    }
    match get_fd_file(fs, fdt, dirfd) {
        Err(e) => Err(e),
        Ok(f) => {
            if (f.kind == FileKind::Regular || f.kind == FileKind::CharDevice || f.kind == FileKind::BlockDevice)
                && fs.vfs.inode_type(f.ino) == InodeType::Directory {
                Ok(f.ino)
            } else {
                Err(FsError::NotDirectory)
            }
        },
    }
}

/// What `resolve_at_path` gives: the inode, `None` when the last lookup
/// found nothing, or the error.
pub open spec fn resolve_at(fs: &FileSystem, ctx: FsStruct, t: Seq<Option<FdEntry>>, dirfd: i32,
    p: Seq<u8>) -> Result<Option<u64>, FsError> {
    match at_base(fs, ctx, t, dirfd, p, FsError::NotSupported) {
        Err(e) => Err(e),
        Ok(b) => match fs.vfs.lookup(b, p, true) {
            Ok(n) => Ok(Some(n)),
            Err(FsError::NotFound) => Ok(None),
            Err(e) => Err(e),
        },
    }
}

/// Resolves `path` as the `*at` calls do, following a final symbolic link.
pub fn resolve_at_path(fs: &FileSystem, ctx: &FsStruct, fdt: &FdTable, dirfd: i32, path: &[u8])
    -> (r: Result<Option<u64>, FsError>)
    requires
        fs.wf(),
        ctx_ok(fs, *ctx),
    ensures
        r == resolve_at(fs, *ctx, fdt@, dirfd, path@),
        r matches Ok(Some(n)) ==> fs.vfs.valid(n),
{
    let base = match base_of(fs, ctx, fdt, dirfd, path, FsError::NotSupported) {
        Err(e) => return Err(e),
        Ok(b) => b,
    };
    match fs.vfs.lookup_path(base, path, true) {
        Ok(n) => Ok(Some(n)),
        Err(FsError::NotFound) => Ok(None),
        Err(e) => Err(e),
    }
}

/// What `resolve_at_path_with_flags` gives.
pub open spec fn resolve_at_flags(fs: &FileSystem, ctx: FsStruct, t: Seq<Option<FdEntry>>, dirfd: i32,
    p: Seq<u8>, follow: bool) -> Result<u64, FsError> {
    if follow {
        match resolve_at(fs, ctx, t, dirfd, p) {
            Err(e) => Err(e),
            Ok(None) => Err(FsError::NotFound),
            Ok(Some(n)) => Ok(n),
        }
    } else {
        let base = if p.len() > 0 && p[0] == SLASH {
            Ok(ROOT_INO)
        } else if dirfd == AT_FDCWD {
            match ctx.cwd {
                Some(c) => Ok(c),
                None => Err(FsError::NotFound),
            }
        } else {
            match fd_file(fs, t, dirfd) {
                Err(e) => Err(e),
                Ok(f) => if f.has_dentry() { Ok(f.ino) } else { Err(FsError::NotSupported) },
            }
        };
        match base {
            Err(e) => Err(e),
            Ok(b) => fs.vfs.lookup(b, p, false),
        }
    }
}

/// Resolves `path`, following a final symbolic link only when `follow` is set.
pub fn resolve_at_path_with_flags(fs: &FileSystem, ctx: &FsStruct, fdt: &FdTable, dirfd: i32,
    path: &[u8], follow: bool) -> (r: Result<u64, FsError>)
    requires
        fs.wf(),
        ctx_ok(fs, *ctx),
    ensures
        r == resolve_at_flags(fs, *ctx, fdt@, dirfd, path@, follow),
        r matches Ok(n) ==> fs.vfs.valid(n),
{
    if follow {
        return match resolve_at_path(fs, ctx, fdt, dirfd, path) {
            Err(e) => Err(e),
            Ok(None) => Err(FsError::NotFound),
            Ok(Some(n)) => Ok(n),
        };
    }
    proof { fs.vfs.lemma_root(); }
    let base = if path.len() > 0 && path[0] == SLASH {
        ROOT_INO
    } else if dirfd == AT_FDCWD {
        match ctx.cwd {
            Some(c) => c,
            None => return Err(FsError::NotFound),
        }
    } else {
        match get_fd_file(fs, fdt, dirfd) {
            Err(e) => return Err(e),
            Ok(f) => if f.kind == FileKind::Regular || f.kind == FileKind::CharDevice
                || f.kind == FileKind::BlockDevice {
                f.ino
            } else {
                return Err(FsError::NotSupported);
            },
        }
    };
    fs.vfs.lookup_path(base, path, false)
}

/// Where a new entry for `p` goes: the directory and the name.
pub open spec fn parent_at(fs: &FileSystem, ctx: FsStruct, t: Seq<Option<FdEntry>>, dirfd: i32,
    p: Seq<u8>) -> Result<(u64, Seq<u8>), FsError> {
    match split(p) {
        Err(e) => Err(e),
        Ok((d, n)) => match resolve_at(fs, ctx, t, dirfd, d) {
            Err(e) => Err(e),
            Ok(None) => Err(FsError::NotFound),
            Ok(Some(dir)) => Ok((dir, n)),
        },
    }
}

/// Splits `path` and resolves its directory part.
pub fn resolve_parent(fs: &FileSystem, ctx: &FsStruct, fdt: &FdTable, dirfd: i32, path: &[u8])
    -> (r: Result<(u64, Vec<u8>), FsError>)
    requires
        fs.wf(),
        ctx_ok(fs, *ctx),
    ensures
        match parent_at(fs, *ctx, fdt@, dirfd, path@) {
            Ok((d, n)) => r matches Ok((rd, rn)) && rd == d && rn@ == n,
            Err(e) => r == Err::<(u64, Vec<u8>), FsError>(e),
        },
        r matches Ok((d, _n)) ==> fs.vfs.valid(d),
{
    let (dir_path, name) = match split_path(path) {
        Err(e) => return Err(e),
        Ok(x) => x,
    };
    match resolve_at_path(fs, ctx, fdt, dirfd, dir_path.as_slice()) {
        Err(e) => Err(e),
        Ok(None) => Err(FsError::NotFound),
        Ok(Some(d)) => Ok((d, name)),
    }
}

} // verus!
