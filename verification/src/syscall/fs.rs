//! File system calls: opening, creating, removing and renaming files.

use vstd::prelude::*;
use crate::errno::{FsError, EINVAL, ENOENT, ENOTDIR, EEXIST, EACCES};
use crate::fd_table::{FdTable, FdEntry, lowest_free, with_entry, entry, MAX_FDS};
use crate::file::{FileSystem, FsStruct, OpenFile, FileKind, O_ALL_FLAGS, O_CREAT, O_EXCL, O_TRUNC, O_DIRECTORY, spec_writable, writable};
use crate::vfs::{Vfs, InodeType, TreeState, apply_rename, bytes_eq, DOT};
use crate::syscall::path::{ctx_ok, parent_at, resolve_at, resolve_parent, resolve_at_path, split, split_path,
    resolve_at_flags, resolve_at_path_with_flags, fd_file, get_fd_file, AT_FDCWD, AT_REMOVEDIR, AT_SYMLINK_NOFOLLOW,
    AT_EMPTY_PATH, AT_ALL_FLAGS};

verus! {

/// The value a system call returns for error `e`.
pub open spec fn err_ret(e: FsError) -> isize {
    (-(e.errno() as int)) as isize
}

/// The permission bits of a mode argument.
pub const PERM_MASK: u32 = 0o7777;

/// `new` is `old` with inode `n` entered as `name` in `d`.
pub open spec fn created(old: FileSystem, new: FileSystem, d: u64, name: Seq<u8>, itype: InodeType,
    mode: u32, rdev: u64, link: Seq<u8>) -> bool {
    let n = old.vfs.inodes().len() as u64;
    &&& new.vfs.inodes() == old.vfs.inodes().push(Vfs::new_inode(itype, mode, rdev, d))
    &&& new.vfs.dir() == old.vfs.dir().insert((d, name), n)
    &&& new.vfs.link(n) == link
    &&& forall|m: u64| old.vfs.valid(m) ==> #[trigger] new.vfs.link(m) == old.vfs.link(m)
    &&& new.files == old.files
    &&& new.mounts == old.mounts
    &&& new.devices == old.devices
}

/// Makes a node of type `itype` for `path`, as `mknodat`, `mkdirat`,
/// `symlinkat` and `create_file_at` do; gives its inode.
fn make_node(fs: &mut FileSystem, ctx: &FsStruct, fdt: &FdTable, dirfd: i32, path: &[u8],
    itype: InodeType, mode: u32, rdev: u64, link: &[u8]) -> (r: Result<u64, FsError>)
    requires
        old(fs).wf(),
        ctx_ok(&*old(fs), *ctx),
        itype == InodeType::File ==> link@.len() == 0,
    ensures
        final(fs).wf(),
        match parent_at(&*old(fs), *ctx, fdt@, dirfd, path@) {
            Err(e) => r == Err::<u64, FsError>(e) && *final(fs) == *old(fs),
            Ok((d, name)) => match old(fs).vfs.create_error(d, name) {
                Some(e) => r == Err::<u64, FsError>(e) && *final(fs) == *old(fs),
                None => r == Ok::<u64, FsError>(old(fs).vfs.inodes().len() as u64)
                    && created(*old(fs), *final(fs), d, name, itype, mode, rdev, link@),
            },
        },
{
    let (d, name) = match resolve_parent(fs, ctx, fdt, dirfd, path) {
        Err(e) => return Err(e),
        Ok(x) => x,
    };
    let r = fs.vfs.create(d, name.as_slice(), itype, mode, rdev, link);
    proof {
        assert forall|i: int| 0 <= i < fs.files@.len() && (#[trigger] fs.files@[i]).has_dentry()
            implies fs.vfs.valid(fs.files@[i].ino) by {
            assert(old(fs).vfs.valid(old(fs).files@[i].ino));
        }
    }
    r
}

/// Creates a regular file for `path`; gives its inode.
pub fn create_file_at(fs: &mut FileSystem, ctx: &FsStruct, fdt: &FdTable, dirfd: i32, path: &[u8],
    mode: u32) -> (r: Result<u64, FsError>)
    requires
        old(fs).wf(),
        ctx_ok(&*old(fs), *ctx),
    ensures
        final(fs).wf(),
        match parent_at(&*old(fs), *ctx, fdt@, dirfd, path@) {
            Err(e) => r == Err::<u64, FsError>(e) && *final(fs) == *old(fs),
            Ok((d, name)) => match old(fs).vfs.create_error(d, name) {
                Some(e) => r == Err::<u64, FsError>(e) && *final(fs) == *old(fs),
                None => r == Ok::<u64, FsError>(old(fs).vfs.inodes().len() as u64)
                    && created(*old(fs), *final(fs), d, name, InodeType::File, mode & PERM_MASK, 0,
                        Seq::empty()),
            },
        },
{
    let empty: Vec<u8> = Vec::new();
    make_node(fs, ctx, fdt, dirfd, path, InodeType::File, mode & PERM_MASK, 0, empty.as_slice())
}

/// The kind of open file an inode of type `t` gives, if it can be opened.
pub open spec fn file_kind(t: InodeType) -> Option<FileKind> {
    match t {
        InodeType::File | InodeType::Directory | InodeType::Symlink => Some(FileKind::Regular),
        InodeType::CharDevice => Some(FileKind::CharDevice),
        InodeType::BlockDevice => Some(FileKind::BlockDevice),
        InodeType::Fifo | InodeType::Socket => None,
    }
}

/// The open file description for inode `ino` opened with `flags`;
/// FIFOs and sockets cannot be opened this way.
pub fn create_file_from_dentry(fs: &FileSystem, ino: u64, flags: u32) -> (r: Result<OpenFile, FsError>)
    requires
        fs.wf(),
        fs.vfs.valid(ino),
    ensures
        match file_kind(fs.itype(ino)) {
            Some(k) => r == Ok::<OpenFile, FsError>(OpenFile { kind: k, ino, flags, offset: 0, owner: 0, pipe_size: 0 }),
            None => r == Err::<OpenFile, FsError>(FsError::NotSupported),
        },
{
    let kind = match fs.vfs.inode_type(ino) {
        InodeType::File | InodeType::Directory | InodeType::Symlink => FileKind::Regular,
        InodeType::CharDevice => FileKind::CharDevice,
        InodeType::BlockDevice => FileKind::BlockDevice,
        InodeType::Fifo | InodeType::Socket => return Err(FsError::NotSupported),
    };
    Ok(OpenFile { kind, ino, flags, offset: 0, owner: 0, pipe_size: 0 })
}

/// The tree after `open` with `flags` truncates inode `n`, if it does.
pub open spec fn open_truncated(old: Vfs, n: u64, flags: u32) -> Seq<crate::vfs::Inode> {
    if flags & O_TRUNC != 0 && spec_writable(flags) && old.inodes()[n as int].itype == InodeType::File {
        old.inodes().update(n as int, crate::vfs::Inode { size: 0, ..old.inodes()[n as int] })
    } else {
        old.inodes()
    }
}

/// The last stage of `openat`: checks, truncation, the open file and its descriptor.
fn open_inode(fs: &mut FileSystem, fdt: &mut FdTable, n: u64, flags: u32) -> (r: isize)
    requires
        old(fs).wf(),
        old(fdt).wf(),
        old(fs).vfs.valid(n),
    ensures
        final(fs).wf(),
        final(fdt).wf(),
        final(fs).vfs.dir() == old(fs).vfs.dir(),
        final(fs).mounts == old(fs).mounts,
        final(fs).devices == old(fs).devices,
        forall|m: u64| m != n && old(fs).vfs.valid(m) ==> #[trigger] final(fs).vfs.link(m) == old(fs).vfs.link(m),
        if flags & O_DIRECTORY != 0 && old(fs).itype(n) != InodeType::Directory {
            r == err_ret(FsError::NotDirectory) && *final(fs) == *old(fs) && final(fdt)@ == old(fdt)@
        } else {
            &&& final(fs).vfs.inodes() == open_truncated(old(fs).vfs, n, flags)
            &&& match file_kind(old(fs).itype(n)) {
                None => r == err_ret(FsError::NotSupported) && final(fs).files == old(fs).files
                    && final(fdt)@ == old(fdt)@,
                Some(k) => if old(fs).files@.len() + 1 >= u64::MAX {
                    r == err_ret(FsError::NoSpace) && final(fs).files == old(fs).files
                        && final(fdt)@ == old(fdt)@
                } else if r < 0 {
                    &&& r == err_ret(FsError::TooManyOpenFiles)
                    &&& forall|fd: int| lowest_free(old(fdt)@, 0, fd) ==> fd >= MAX_FDS
                    &&& final(fs).files == old(fs).files
                    &&& final(fdt)@ == old(fdt)@
                } else {
                    &&& lowest_free(old(fdt)@, 0, r as int)
                    &&& r < MAX_FDS
                    &&& final(fs).files@ == old(fs).files@.push(OpenFile { kind: k, ino: n, flags, offset: 0, owner: 0, pipe_size: 0 })
                    &&& final(fdt)@ == with_entry(old(fdt)@, r as int,
                        Some(FdEntry { file: old(fs).files@.len() as u64, cloexec: false }))
                },
            }
        },
{
    let t = fs.vfs.inode_type(n);
    if flags & O_DIRECTORY != 0 && t != InodeType::Directory {
        return FsError::NotDirectory.to_errno();
    }
    if flags & O_TRUNC != 0 && writable(flags) && t == InodeType::File {
        let _ = fs.vfs.truncate(n, 0);
        proof {
            assert forall|i: int| 0 <= i < fs.files@.len() && (#[trigger] fs.files@[i]).has_dentry()
                implies fs.vfs.valid(fs.files@[i].ino) by {
                assert(old(fs).vfs.valid(old(fs).files@[i].ino));
            }
        }
    }
    let file = match create_file_from_dentry(fs, n, flags) {
        Err(e) => return e.to_errno(),
        Ok(f) => f,
    };
    let id = fs.files.len() as u64;
    if id >= u64::MAX - 1 {
        return FsError::NoSpace.to_errno();
    }
    match fdt.alloc_fd(id) {
        Err(e) => e.to_errno(),
        Ok(fd) => {
            fs.add_file(file);
            fd as isize
        },
    }
}

/// `open` flag bits outside those the kernel knows.
pub open spec fn unknown_open_flags(flags: u32) -> bool {
    flags & !O_ALL_FLAGS != 0
}

/// What opening an inode of type `it` gives, with `files_len` open files and
/// descriptor table `t`: `ENOTDIR` under `O_DIRECTORY` for a non-directory,
/// `EOPNOTSUPP` for a FIFO or socket, `ENOSPC` when no open file id is
/// left, a descriptor (the lowest free one) when one below the limit is
/// free, else `EMFILE`.
pub open spec fn open_outcome(files_len: nat, t: Seq<Option<FdEntry>>, flags: u32, it: InodeType, r: isize) -> bool {
    if flags & O_DIRECTORY != 0 && it != InodeType::Directory {
        r == err_ret(FsError::NotDirectory)
    } else if file_kind(it) is None {
        r == err_ret(FsError::NotSupported)
    } else if files_len + 1 >= u64::MAX {
        r == err_ret(FsError::NoSpace)
    } else if exists|fd: int| #[trigger] lowest_free(t, 0, fd) && fd < MAX_FDS {
        r >= 0
    } else {
        r == err_ret(FsError::TooManyOpenFiles)
    }
}

/// Opens (and with `O_CREAT` creates) `path` relative to `dirfd`; gives the
/// new descriptor or a negated errno.
pub fn openat(fs: &mut FileSystem, ctx: &FsStruct, fdt: &mut FdTable, dirfd: i32, path: &[u8],
    flags: u32, mode: u32) -> (r: isize)
    requires
        old(fs).wf(),
        old(fdt).wf(),
        ctx_ok(&*old(fs), *ctx),
    ensures
        final(fs).wf(),
        final(fdt).wf(),
        ctx_ok(&*final(fs), *ctx),
        unknown_open_flags(flags) ==> r == -(EINVAL as isize) && *final(fs) == *old(fs)
            && final(fdt)@ == old(fdt)@,
        !unknown_open_flags(flags) ==> match resolve_at(&*old(fs), *ctx, old(fdt)@, dirfd, path@) {
            Err(e) => r == err_ret(e) && *final(fs) == *old(fs) && final(fdt)@ == old(fdt)@,
            Ok(Some(n)) => if flags & O_CREAT != 0 && flags & O_EXCL != 0 {
                r == -(EEXIST as isize) && *final(fs) == *old(fs) && final(fdt)@ == old(fdt)@
            } else {
                &&& open_outcome(old(fs).files@.len(), old(fdt)@, flags, old(fs).itype(n), r)
                &&& !(flags & O_DIRECTORY != 0 && old(fs).itype(n) != InodeType::Directory) ==>
                    final(fs).vfs.inodes() == open_truncated(old(fs).vfs, n, flags)
            },
            Ok(None) => {
                &&& flags & O_CREAT == 0 ==> r == -(ENOENT as isize) && *final(fs) == *old(fs)
                    && final(fdt)@ == old(fdt)@
                &&& flags & O_CREAT != 0 ==> match parent_at(&*old(fs), *ctx, old(fdt)@, dirfd, path@) {
                    Err(e) => r == err_ret(e) && *final(fs) == *old(fs) && final(fdt)@ == old(fdt)@,
                    Ok((d, name)) => match old(fs).vfs.create_error(d, name) {
                        Some(e) => r == err_ret(e) && *final(fs) == *old(fs) && final(fdt)@ == old(fdt)@,
                        None => final(fs).vfs.dir() == old(fs).vfs.dir().insert((d, name),
                            old(fs).vfs.inodes().len() as u64)
                            && open_outcome(old(fs).files@.len(), old(fdt)@, flags, InodeType::File, r),
                    },
                }
            },
        },
        r >= 0 ==> r < MAX_FDS && lowest_free(old(fdt)@, 0, r as int)
            && final(fs).files@.len() == old(fs).files@.len() + 1
            && final(fdt)@ == with_entry(old(fdt)@, r as int,
                Some(FdEntry { file: old(fs).files@.len() as u64, cloexec: false }))
            && final(fs).files@.last().flags == flags
            && final(fs).files@.last().offset == 0,
{
    if flags & !O_ALL_FLAGS != 0 {
        return -(EINVAL as isize);
    }
    let n = match resolve_at_path(fs, ctx, fdt, dirfd, path) {
        Err(e) => return e.to_errno(),
        Ok(Some(n)) => {
            if flags & O_CREAT != 0 && flags & O_EXCL != 0 {
                return -(EEXIST as isize);
            }
            n
        },
        Ok(None) => {
            if flags & O_CREAT == 0 {
                return -(ENOENT as isize);
            }
            match create_file_at(fs, ctx, fdt, dirfd, path, mode) {
                Err(e) => return e.to_errno(),
                Ok(n) => n,
            }
        },
    };
    let ghost mid = *fs;
    let r = open_inode(fs, fdt, n, flags);
    proof {
        assert(fs.vfs.inodes().len() == mid.vfs.inodes().len());
    }
    r
}

/// Creates a directory for `path`.
pub fn mkdirat(fs: &mut FileSystem, ctx: &FsStruct, fdt: &FdTable, dirfd: i32, path: &[u8], mode: u32)
    -> (r: isize)
    requires
        old(fs).wf(),
        ctx_ok(&*old(fs), *ctx),
    ensures
        final(fs).wf(),
        ctx_ok(&*final(fs), *ctx),
        match parent_at(&*old(fs), *ctx, fdt@, dirfd, path@) {
            Err(e) => r == err_ret(e) && *final(fs) == *old(fs),
            Ok((d, name)) => match old(fs).vfs.create_error(d, name) {
                Some(e) => r == err_ret(e) && *final(fs) == *old(fs),
                None => r == 0 && created(*old(fs), *final(fs), d, name, InodeType::Directory,
                    mode & PERM_MASK, 0, Seq::empty()),
            },
        },
{
    let empty: Vec<u8> = Vec::new();
    match make_node(fs, ctx, fdt, dirfd, path, InodeType::Directory, mode & PERM_MASK, 0, empty.as_slice()) {
        Ok(_) => 0,
        Err(e) => e.to_errno(),
    }
}

/// File type bits of a mode argument.
pub const S_IFMT: u32 = 0o170000;
pub const S_IFSOCK: u32 = 0o140000;
pub const S_IFLNK: u32 = 0o120000;
pub const S_IFREG: u32 = 0o100000;
pub const S_IFBLK: u32 = 0o060000;
pub const S_IFDIR: u32 = 0o040000;
pub const S_IFCHR: u32 = 0o020000;
pub const S_IFIFO: u32 = 0o010000;

/// The inode type a mode's type bits give (a regular file when they give none).
pub open spec fn mode_type(mode: u32) -> InodeType {
    let t = mode & S_IFMT;
    if t == S_IFDIR { InodeType::Directory }
    else if t == S_IFCHR { InodeType::CharDevice }
    else if t == S_IFBLK { InodeType::BlockDevice }
    else if t == S_IFIFO { InodeType::Fifo }
    else if t == S_IFSOCK { InodeType::Socket }
    else if t == S_IFLNK { InodeType::Symlink }
    else { InodeType::File }
}

fn inode_type_of_mode(mode: u32) -> (t: InodeType)
    ensures
        t == mode_type(mode),
{
    let t = mode & S_IFMT;
    if t == S_IFDIR { InodeType::Directory }
    else if t == S_IFCHR { InodeType::CharDevice }
    else if t == S_IFBLK { InodeType::BlockDevice }
    else if t == S_IFIFO { InodeType::Fifo }
    else if t == S_IFSOCK { InodeType::Socket }
    else if t == S_IFLNK { InodeType::Symlink }
    else { InodeType::File }
}

/// Creates a node of the type `mode` gives, with device number `dev`.
pub fn mknodat(fs: &mut FileSystem, ctx: &FsStruct, fdt: &FdTable, dirfd: i32, path: &[u8], mode: u32,
    dev: u64) -> (r: isize)
    requires
        old(fs).wf(),
        ctx_ok(&*old(fs), *ctx),
    ensures
        final(fs).wf(),
        ctx_ok(&*final(fs), *ctx),
        match parent_at(&*old(fs), *ctx, fdt@, dirfd, path@) {
            Err(e) => r == err_ret(e) && *final(fs) == *old(fs),
            Ok((d, name)) => match old(fs).vfs.create_error(d, name) {
                Some(e) => r == err_ret(e) && *final(fs) == *old(fs),
                None => r == 0 && created(*old(fs), *final(fs), d, name, mode_type(mode),
                    mode & PERM_MASK, dev, Seq::empty()),
            },
        },
{
    let empty: Vec<u8> = Vec::new();
    let t = inode_type_of_mode(mode);
    match make_node(fs, ctx, fdt, dirfd, path, t, mode & PERM_MASK, dev, empty.as_slice()) {
        Ok(_) => 0,
        Err(e) => e.to_errno(),
    }
}

/// Creates a symbolic link `linkpath` holding `target`; the target is not checked.
pub fn symlinkat(fs: &mut FileSystem, ctx: &FsStruct, fdt: &FdTable, target: &[u8], newdirfd: i32,
    linkpath: &[u8]) -> (r: isize)
    requires
        old(fs).wf(),
        ctx_ok(&*old(fs), *ctx),
    ensures
        final(fs).wf(),
        ctx_ok(&*final(fs), *ctx),
        match parent_at(&*old(fs), *ctx, fdt@, newdirfd, linkpath@) {
            Err(e) => r == err_ret(e) && *final(fs) == *old(fs),
            Ok((d, name)) => match old(fs).vfs.create_error(d, name) {
                Some(e) => r == err_ret(e) && *final(fs) == *old(fs),
                None => r == 0 && created(*old(fs), *final(fs), d, name, InodeType::Symlink, 0o777, 0,
                    target@),
            },
        },
{
    match make_node(fs, ctx, fdt, newdirfd, linkpath, InodeType::Symlink, 0o777, 0, target) {
        Ok(_) => 0,
        Err(e) => e.to_errno(),
    }
}


/// Removes `path`: a directory with `AT_REMOVEDIR`, anything else without it.
pub fn unlinkat(fs: &mut FileSystem, ctx: &FsStruct, fdt: &FdTable, dirfd: i32, path: &[u8], flags: u32)
    -> (r: isize)
    requires
        old(fs).wf(),
        ctx_ok(&*old(fs), *ctx),
    ensures
        final(fs).wf(),
        ctx_ok(&*final(fs), *ctx),
        final(fs).files == old(fs).files,
        final(fs).vfs.inodes() == old(fs).vfs.inodes(),
        match parent_at(&*old(fs), *ctx, fdt@, dirfd, path@) {
            Err(e) => r == err_ret(e) && *final(fs) == *old(fs),
            Ok((d, name)) => match old(fs).vfs.step(d, name) {
                Err(e) => r == err_ret(e) && *final(fs) == *old(fs),
                Ok(t) => if flags & AT_REMOVEDIR != 0 && !old(fs).vfs.is_dir(t) {
                    r == -(ENOTDIR as isize) && *final(fs) == *old(fs)
                } else if flags & AT_REMOVEDIR == 0 && old(fs).vfs.is_dir(t) {
                    r == err_ret(FsError::IsDirectory) && *final(fs) == *old(fs)
                } else {
                    match old(fs).vfs.unlink_error(d, name) {
                        Some(e) => r == err_ret(e) && final(fs).vfs.dir() == old(fs).vfs.dir(),
                        None => r == 0 && final(fs).vfs.dir() == old(fs).vfs.dir().remove((d, name)),
                    }
                },
            },
        },
{
    let is_rmdir = flags & AT_REMOVEDIR != 0;
    let (d, name) = match resolve_parent(fs, ctx, fdt, dirfd, path) {
        Err(e) => return e.to_errno(),
        Ok(x) => x,
    };
    let t = match fs.vfs.lookup_child(d, name.as_slice()) {
        Err(e) => return e.to_errno(),
        Ok(t) => t,
    };
    let is_dir = fs.vfs.inode_type(t) == InodeType::Directory;
    if is_rmdir && !is_dir {
        return -(ENOTDIR as isize);
    }
    if !is_rmdir && is_dir {
        return FsError::IsDirectory.to_errno();
    }
    let ghost before = *fs;
    let r = fs.vfs.unlink(d, name.as_slice());
    proof { FileSystem::lemma_wf_after_vfs(before, *fs); }
    match r {
        Ok(()) => 0,
        Err(e) => e.to_errno(),
    }
}

/// Changes the working directory to `path`.
pub fn chdir(fs: &FileSystem, ctx: &mut FsStruct, fdt: &FdTable, path: &[u8]) -> (r: isize)
    requires
        fs.wf(),
        ctx_ok(fs, *old(ctx)),
    ensures
        ctx_ok(fs, *final(ctx)),
        match resolve_at_flags(fs, *old(ctx), fdt@, AT_FDCWD, path@, true) {
            Err(e) => r == err_ret(e) && *final(ctx) == *old(ctx),
            Ok(n) => if fs.vfs.is_dir(n) {
                r == 0 && *final(ctx) == (FsStruct { cwd: Some(n), ..*old(ctx) })
            } else {
                r == -(ENOTDIR as isize) && *final(ctx) == *old(ctx)
            },
        },
{
    let n = match resolve_at_path_with_flags(fs, ctx, fdt, AT_FDCWD, path, true) {
        Err(e) => return e.to_errno(),
        Ok(n) => n,
    };
    if fs.vfs.inode_type(n) != InodeType::Directory {
        return -(ENOTDIR as isize);
    }
    ctx.cwd = Some(n);
    0
}

pub const RENAME_NOREPLACE: u32 = 1;
pub const RENAME_EXCHANGE: u32 = 2;
pub const RENAME_WHITEOUT: u32 = 4;

/// `renameat2` flags that are refused: unknown bits, or `RENAME_EXCHANGE`
/// together with `RENAME_NOREPLACE` or `RENAME_WHITEOUT`.
pub open spec fn bad_rename_flags(flags: u32) -> bool {
    flags & !(RENAME_NOREPLACE | RENAME_EXCHANGE | RENAME_WHITEOUT) != 0
        || (flags & RENAME_EXCHANGE != 0 && flags & (RENAME_NOREPLACE | RENAME_WHITEOUT) != 0)
}

/// The prefix of the temporary name an exchange goes through.
pub open spec fn temp_prefix() -> Seq<u8> {
    seq![0x2eu8, 0x72, 0x65, 0x6e, 0x61, 0x6d, 0x65, 0x5f, 0x74, 0x65, 0x6d, 0x70, 0x5f]
}

/// The temporary name of an exchange of `a` and `b`: `.rename_temp_a_b`.
pub open spec fn temp_name(a: Seq<u8>, b: Seq<u8>) -> Seq<u8> {
    temp_prefix() + a + seq![0x5fu8] + b
}

fn make_temp_name(a: &[u8], b: &[u8]) -> (r: Vec<u8>)
    ensures
        r@ == temp_name(a@, b@),
{
    let mut v: Vec<u8> = vec![0x2eu8, 0x72, 0x65, 0x6e, 0x61, 0x6d, 0x65, 0x5f, 0x74, 0x65, 0x6d, 0x70, 0x5f];
    assert(v@ =~= temp_prefix());
    let mut i: usize = 0;
    while i < a.len()
        invariant
            0 <= i <= a@.len(),
            v@ == temp_prefix() + a@.take(i as int),
        decreases a@.len() - i,
    {
        v.push(a[i]);
        assert(a@.take(i + 1) =~= a@.take(i as int).push(a@[i as int]));
        i = i + 1;
    }
    assert(a@.take(i as int) =~= a@);
    v.push(0x5fu8);
    let ghost mid = v@;
    let mut j: usize = 0;
    while j < b.len()
        invariant
            0 <= j <= b@.len(),
            v@ == mid + b@.take(j as int),
        decreases b@.len() - j,
    {
        v.push(b[j]);
        assert(b@.take(j + 1) =~= b@.take(j as int).push(b@[j as int]));
        j = j + 1;
    }
    assert(b@.take(j as int) =~= b@);
    assert(v@ =~= temp_name(a@, b@));
    v
}

/// The three renames that exchange `on` in `op` and `nn` in `np`, with the
/// rollback the original performs when a later step fails.
pub open spec fn exchange(st: TreeState, op: u64, on: Seq<u8>, np: u64, nn: Seq<u8>) -> (Option<FsError>, TreeState) {
    let tmp = temp_name(on, nn);
    let (e1, s1) = apply_rename(st, op, on, op, tmp);
    if e1 is Some {
        (e1, st)
    } else {
        let (e2, s2) = apply_rename(s1, np, nn, op, on);
        if e2 is Some {
            (e2, apply_rename(s1, op, tmp, op, on).1)
        } else {
            let (e3, s3) = apply_rename(s2, op, tmp, np, nn);
            if e3 is Some {
                (e3, apply_rename(apply_rename(s2, op, on, np, nn).1, op, tmp, op, on).1)
            } else {
                (None, s3)
            }
        }
    }
}

/// What `renameat2` does once both names are resolved: its error, or the new tree.
/// `target` tells whether the new name can be looked up.
pub open spec fn rename_outcome(st: TreeState, op: u64, on: Seq<u8>, np: u64, nn: Seq<u8>, flags: u32,
    target: bool) -> (Option<FsError>, TreeState) {
    if flags & RENAME_EXCHANGE != 0 {
        if !target {
            (Some(FsError::NotFound), st)
        } else {
            exchange(st, op, on, np, nn)
        }
    } else if flags & RENAME_NOREPLACE != 0 {
        if target {
            (Some(FsError::AlreadyExists), st)
        } else {
            apply_rename(st, op, on, np, nn)
        }
    } else if flags & RENAME_WHITEOUT != 0 {
        (Some(FsError::NotSupported), st)
    } else {
        apply_rename(st, op, on, np, nn)
    }
}

/// `vfs.rename` seen as `apply_rename` on the tree's contents.
fn do_rename(fs: &mut FileSystem, od: u64, on: &[u8], nd: u64, nn: &[u8]) -> (r: Result<(), FsError>)
    requires
        old(fs).wf(),
    ensures
        final(fs).wf(),
        final(fs).files == old(fs).files,
        final(fs).mounts == old(fs).mounts,
        final(fs).devices == old(fs).devices,
        forall|m: u64| #[trigger] final(fs).vfs.link(m) == old(fs).vfs.link(m),
        final(fs).vfs.inodes().len() == old(fs).vfs.inodes().len(),
        (match r { Ok(()) => None, Err(e) => Some(e) }, final(fs).vfs.state())
            == apply_rename(old(fs).vfs.state(), od, on@, nd, nn@),
{
    let ghost before = *fs;
    let r = fs.vfs.rename(od, on, nd, nn);
    proof { FileSystem::lemma_wf_after_vfs(before, *fs); }
    r
}

/// Renames `oldpath` to `newpath`; `RENAME_NOREPLACE` refuses an existing
/// target and `RENAME_EXCHANGE` swaps the two names.
pub fn renameat2(fs: &mut FileSystem, ctx: &FsStruct, fdt: &FdTable, olddirfd: i32, oldpath: &[u8],
    newdirfd: i32, newpath: &[u8], flags: u32) -> (r: isize)
    requires
        old(fs).wf(),
        ctx_ok(&*old(fs), *ctx),
    ensures
        final(fs).wf(),
        ctx_ok(&*final(fs), *ctx),
        final(fs).files == old(fs).files,
        final(fs).vfs.inodes().len() == old(fs).vfs.inodes().len(),
        bad_rename_flags(flags) ==> r == -(EINVAL as isize) && *final(fs) == *old(fs),
        !bad_rename_flags(flags) && (oldpath@.len() == 0 || newpath@.len() == 0) ==>
            r == -(ENOENT as isize) && *final(fs) == *old(fs),
        !bad_rename_flags(flags) && oldpath@.len() > 0 && newpath@.len() > 0 ==>
            match (parent_at(&*old(fs), *ctx, fdt@, olddirfd, oldpath@), parent_at(&*old(fs), *ctx, fdt@, newdirfd, newpath@)) {
                (Err(e), _) => r == err_ret(e) && *final(fs) == *old(fs),
                (Ok(_), Err(e)) => r == err_ret(e) && *final(fs) == *old(fs),
                (Ok((op, on)), Ok((np, nn))) =>
                    if !old(fs).vfs.is_dir(op) || !old(fs).vfs.is_dir(np) {
                        r == -(ENOTDIR as isize) && *final(fs) == *old(fs)
                    } else {
                        match old(fs).vfs.step(op, on) {
                            Err(e) => r == err_ret(e) && *final(fs) == *old(fs),
                            Ok(_) => {
                                let (e, st) = rename_outcome(old(fs).vfs.state(), op, on, np, nn, flags,
                                    old(fs).vfs.step(np, nn) is Ok);
                                &&& final(fs).vfs.state() == st
                                &&& match e { Some(e) => r == err_ret(e), None => r == 0 }
                            },
                        }
                    },
            },
{
    if flags & !(RENAME_NOREPLACE | RENAME_EXCHANGE | RENAME_WHITEOUT) != 0
        || (flags & RENAME_EXCHANGE != 0 && flags & (RENAME_NOREPLACE | RENAME_WHITEOUT) != 0) {
        return -(EINVAL as isize);
    }
    if oldpath.len() == 0 || newpath.len() == 0 {
        return -(ENOENT as isize);
    }
    let (op, on) = match resolve_parent(fs, ctx, fdt, olddirfd, oldpath) {
        Err(e) => return e.to_errno(),
        Ok(x) => x,
    };
    let (np, nn) = match resolve_parent(fs, ctx, fdt, newdirfd, newpath) {
        Err(e) => return e.to_errno(),
        Ok(x) => x,
    };
    if fs.vfs.inode_type(op) != InodeType::Directory || fs.vfs.inode_type(np) != InodeType::Directory {
        return -(ENOTDIR as isize);
    }
    match fs.vfs.lookup_child(op, on.as_slice()) {
        Err(e) => return e.to_errno(),
        Ok(_) => {},
    }
    let ghost st0 = fs.vfs.state();
    if flags & RENAME_EXCHANGE != 0 {
        if fs.vfs.lookup_child(np, nn.as_slice()).is_err() {
            return -(ENOENT as isize);
        }
        let tmp = make_temp_name(on.as_slice(), nn.as_slice());
        if let Err(e) = do_rename(fs, op, on.as_slice(), op, tmp.as_slice()) {
            return e.to_errno();
        }
        let ghost st1 = fs.vfs.state();
        if let Err(e) = do_rename(fs, np, nn.as_slice(), op, on.as_slice()) {
            let _ = do_rename(fs, op, tmp.as_slice(), op, on.as_slice());
            return e.to_errno();
        }
        if let Err(e) = do_rename(fs, op, tmp.as_slice(), np, nn.as_slice()) {
            let _ = do_rename(fs, op, on.as_slice(), np, nn.as_slice());
            let _ = do_rename(fs, op, tmp.as_slice(), op, on.as_slice());
            return e.to_errno();
        }
        0
    } else if flags & RENAME_NOREPLACE != 0 {
        if fs.vfs.lookup_child(np, nn.as_slice()).is_ok() {
            return -(EEXIST as isize);
        }
        match do_rename(fs, op, on.as_slice(), np, nn.as_slice()) {
            Err(e) => e.to_errno(),
            Ok(()) => 0,
        }
    } else if flags & RENAME_WHITEOUT != 0 {
        FsError::NotSupported.to_errno()
    } else {
        match do_rename(fs, op, on.as_slice(), np, nn.as_slice()) {
            Err(e) => e.to_errno(),
            Ok(()) => 0,
        }
    }
}


/// The inode an `AT_EMPTY_PATH` call acts on: the file open as `dirfd`.
pub open spec fn empty_path_target(fs: &FileSystem, t: Seq<Option<FdEntry>>, dirfd: i32) -> Result<u64, FsError> {
    if dirfd == AT_FDCWD {
        Err(FsError::InvalidArgument)
    } else {
        match fd_file(fs, t, dirfd) {
            Err(e) => Err(e),
            Ok(f) => if f.has_dentry() { Ok(f.ino) } else { Err(FsError::NotSupported) },
        }
    }
}

/// The inode `fchownat` acts on.
pub open spec fn chown_target(fs: &FileSystem, ctx: FsStruct, t: Seq<Option<FdEntry>>, dirfd: i32,
    p: Seq<u8>, flags: u32) -> Result<u64, FsError> {
    if flags & AT_EMPTY_PATH != 0 && p.len() == 0 {
        empty_path_target(fs, t, dirfd)
    } else {
        resolve_at_flags(fs, ctx, t, dirfd, p, flags & AT_SYMLINK_NOFOLLOW == 0)
    }
}

/// Sets the owner and group of a file (`u32::MAX` keeps a field). Every
/// caller may do so: the system has the root user alone.
pub fn fchownat(fs: &mut FileSystem, ctx: &FsStruct, fdt: &FdTable, dirfd: i32, path: &[u8], owner: u32,
    group: u32, flags: u32) -> (r: isize)
    requires
        old(fs).wf(),
        ctx_ok(&*old(fs), *ctx),
    ensures
        final(fs).wf(),
        ctx_ok(&*final(fs), *ctx),
        match chown_target(&*old(fs), *ctx, fdt@, dirfd, path@, flags) {
            Err(e) => r == err_ret(e) && *final(fs) == *old(fs),
            Ok(n) => {
                &&& r == 0
                &&& final(fs).vfs.inodes() == old(fs).vfs.inodes().update(n as int, crate::vfs::Inode {
                    uid: if owner == u32::MAX { old(fs).vfs.inodes()[n as int].uid } else { owner },
                    gid: if group == u32::MAX { old(fs).vfs.inodes()[n as int].gid } else { group },
                    ..old(fs).vfs.inodes()[n as int]
                })
                &&& final(fs).vfs.dir() == old(fs).vfs.dir()
                &&& final(fs).files == old(fs).files
            },
        },
{
    let n = if flags & AT_EMPTY_PATH != 0 && path.len() == 0 {
        if dirfd == AT_FDCWD {
            return -(EINVAL as isize);
        }
        match get_fd_file(fs, fdt, dirfd) {
            Err(e) => return e.to_errno(),
            Ok(f) => if f.kind == FileKind::Regular || f.kind == FileKind::CharDevice
                || f.kind == FileKind::BlockDevice {
                f.ino
            } else {
                return FsError::NotSupported.to_errno();
            },
        }
    } else {
        match resolve_at_path_with_flags(fs, ctx, fdt, dirfd, path, flags & AT_SYMLINK_NOFOLLOW == 0) {
            Err(e) => return e.to_errno(),
            Ok(n) => n,
        }
    };
    let ghost before = *fs;
    fs.vfs.chown(n, owner, group);
    proof { FileSystem::lemma_wf_after_vfs(before, *fs); }
    0
}

/// Sets the permission bits of a file to `mode & 0o7777`.
pub fn fchmodat(fs: &mut FileSystem, ctx: &FsStruct, fdt: &FdTable, dirfd: i32, path: &[u8], mode: u32,
    flags: u32) -> (r: isize)
    requires
        old(fs).wf(),
        ctx_ok(&*old(fs), *ctx),
    ensures
        final(fs).wf(),
        ctx_ok(&*final(fs), *ctx),
        match resolve_at_flags(&*old(fs), *ctx, fdt@, dirfd, path@, flags & AT_SYMLINK_NOFOLLOW == 0) {
            Err(e) => r == err_ret(e) && *final(fs) == *old(fs),
            Ok(n) => {
                &&& r == 0
                &&& final(fs).vfs.inodes() == old(fs).vfs.inodes().update(n as int,
                    crate::vfs::Inode { mode: mode & PERM_MASK, ..old(fs).vfs.inodes()[n as int] })
                &&& final(fs).vfs.dir() == old(fs).vfs.dir()
                &&& final(fs).files == old(fs).files
            },
        },
{
    let n = match resolve_at_path_with_flags(fs, ctx, fdt, dirfd, path, flags & AT_SYMLINK_NOFOLLOW == 0) {
        Err(e) => return e.to_errno(),
        Ok(n) => n,
    };
    let ghost before = *fs;
    fs.vfs.chmod(n, mode & PERM_MASK);
    proof { FileSystem::lemma_wf_after_vfs(before, *fs); }
    0
}

pub const F_OK: i32 = 0;
pub const X_OK: i32 = 1;
pub const W_OK: i32 = 2;
pub const R_OK: i32 = 4;

/// Whether permission bits `m` grant what access `mode` asks: each asked
/// right must be granted to someone (owner, group or others).
pub open spec fn access_ok(m: u32, mode: i32) -> bool {
    &&& mode & R_OK != 0 ==> m & 0o444 != 0
    &&& mode & W_OK != 0 ==> m & 0o222 != 0
    &&& mode & X_OK != 0 ==> m & 0o111 != 0
}

/// Checks that `path` exists and, unless `mode` is `F_OK`, that its
/// permission bits allow the access asked.
pub fn faccessat(fs: &FileSystem, ctx: &FsStruct, fdt: &FdTable, dirfd: i32, path: &[u8], mode: i32,
    flags: u32) -> (r: isize)
    requires
        fs.wf(),
        ctx_ok(fs, *ctx),
    ensures
        flags & !AT_ALL_FLAGS != 0 ==> r == -(EINVAL as isize),
        flags & !AT_ALL_FLAGS == 0 ==> match resolve_at_flags(fs, *ctx, fdt@, dirfd, path@,
            flags & AT_SYMLINK_NOFOLLOW == 0) {
            Err(e) => r == err_ret(e),
            Ok(n) => if mode == F_OK || access_ok(fs.vfs.inodes()[n as int].mode, mode) {
                r == 0
            } else {
                r == -(EACCES as isize)
            },
        },
{
    if flags & !AT_ALL_FLAGS != 0 {
        return -(EINVAL as isize);
    }
    let n = match resolve_at_path_with_flags(fs, ctx, fdt, dirfd, path, flags & AT_SYMLINK_NOFOLLOW == 0) {
        Err(e) => return e.to_errno(),
        Ok(n) => n,
    };
    if mode == F_OK {
        return 0;
    }
    let m = fs.vfs.inode(n).mode;
    if mode & R_OK != 0 && m & 0o444 == 0 {
        return -(EACCES as isize);
    }
    if mode & W_OK != 0 && m & 0o222 == 0 {
        return -(EACCES as isize);
    }
    if mode & X_OK != 0 && m & 0o111 == 0 {
        return -(EACCES as isize);
    }
    0
}

/// Closes descriptor `fd`.
pub fn close(fdt: &mut FdTable, fd: usize) -> (r: isize)
    requires
        old(fdt).wf(),
    ensures
        final(fdt).wf(),
        match entry(old(fdt)@, fd as int) {
            Some(_e) => r == 0 && final(fdt)@ == old(fdt)@.update(fd as int, None),
            None => r == err_ret(FsError::BadFileDescriptor) && final(fdt)@ == old(fdt)@,
        },
{
    match fdt.close(fd) {
        Ok(_) => 0,
        Err(e) => e.to_errno(),
    }
}

pub const SEEK_SET: usize = 0;
pub const SEEK_CUR: usize = 1;
pub const SEEK_END: usize = 2;

/// The offset `lseek` moves to, if it is allowed.
pub open spec fn seek_target(fs: &FileSystem, f: OpenFile, offset: isize, whence: usize) -> Result<int, FsError> {
    if whence > SEEK_END {
        Err(FsError::InvalidArgument)
    } else if f.kind != FileKind::Regular && f.kind != FileKind::BlockDevice {
        Err(FsError::NotSupported)
    } else {
        let base: int = if whence == SEEK_SET { 0 } else if whence == SEEK_CUR { f.offset as int }
            else { fs.vfs.inodes()[f.ino as int].size as int };
        let pos = base + offset;
        if pos < 0 || pos > isize::MAX { Err(FsError::InvalidArgument) } else { Ok(pos) }
    }
}

/// Moves the offset of the file open as `fd`; gives the new offset.
pub fn lseek(fs: &mut FileSystem, fdt: &FdTable, fd: usize, offset: isize, whence: usize) -> (r: isize)
    requires
        old(fs).wf(),
    ensures
        final(fs).wf(),
        final(fs).vfs == old(fs).vfs,
        fd > i32::MAX ==> r == err_ret(FsError::BadFileDescriptor) && *final(fs) == *old(fs),
        fd <= i32::MAX ==> match fd_file(&*old(fs), fdt@, fd as i32) {
            Err(e) => r == err_ret(e) && *final(fs) == *old(fs),
            Ok(f) => match seek_target(&*old(fs), f, offset, whence) {
                Err(e) => r == err_ret(e) && *final(fs) == *old(fs),
                Ok(pos) => r == pos && final(fs).files@ == old(fs).files@.update(
                    entry(fdt@, fd as int)->Some_0.file as int, OpenFile { offset: pos as u64, ..f }),
            },
        },
{
    if fd > i32::MAX as usize {
        return FsError::BadFileDescriptor.to_errno();
    }
    let f = match get_fd_file(fs, fdt, fd as i32) {
        Err(e) => return e.to_errno(),
        Ok(f) => f,
    };
    let id = match fdt.get(fd) {
        Ok(e) => e.file,
        Err(e) => return e.to_errno(),
    };
    if whence > SEEK_END {
        return FsError::InvalidArgument.to_errno();
    }
    if f.kind != FileKind::Regular && f.kind != FileKind::BlockDevice {
        return FsError::NotSupported.to_errno();
    }
    let base: i128 = if whence == SEEK_SET { 0 } else if whence == SEEK_CUR { f.offset as i128 }
        else { fs.vfs.inode(f.ino).size as i128 };
    let pos: i128 = base + offset as i128;
    if pos < 0 || pos > isize::MAX as i128 {
        return FsError::InvalidArgument.to_errno();
    }
    fs.set_offset(id, pos as u64);
    pos as isize
}

/// Sets the size of the file open as `fd` to `length`.
pub fn ftruncate(fs: &mut FileSystem, fdt: &FdTable, fd: usize, length: i64) -> (r: isize)
    requires
        old(fs).wf(),
    ensures
        final(fs).wf(),
        final(fs).files == old(fs).files,
        length < 0 ==> r == -(EINVAL as isize) && *final(fs) == *old(fs),
        length >= 0 && fd > i32::MAX ==> r == err_ret(FsError::BadFileDescriptor) && *final(fs) == *old(fs),
        length >= 0 && fd <= i32::MAX ==> match fd_file(&*old(fs), fdt@, fd as i32) {
            Err(e) => r == err_ret(e) && *final(fs) == *old(fs),
            Ok(f) => if !spec_writable(f.flags) {
                r == err_ret(FsError::PermissionDenied) && *final(fs) == *old(fs)
            } else if !f.has_dentry() {
                r == err_ret(FsError::NotSupported) && *final(fs) == *old(fs)
            } else if old(fs).vfs.is_dir(f.ino) {
                r == err_ret(FsError::IsDirectory) && final(fs).vfs.inodes() == old(fs).vfs.inodes()
            } else {
                r == 0 && final(fs).vfs.inodes() == old(fs).vfs.inodes().update(f.ino as int,
                    crate::vfs::Inode { size: length as u64, ..old(fs).vfs.inodes()[f.ino as int] })
            },
        },
{
    if length < 0 {
        return -(EINVAL as isize);
    }
    if fd > i32::MAX as usize {
        return FsError::BadFileDescriptor.to_errno();
    }
    let f = match get_fd_file(fs, fdt, fd as i32) {
        Err(e) => return e.to_errno(),
        Ok(f) => f,
    };
    if !writable(f.flags) {
        return FsError::PermissionDenied.to_errno();
    }
    if !(f.kind == FileKind::Regular || f.kind == FileKind::CharDevice || f.kind == FileKind::BlockDevice) {
        return FsError::NotSupported.to_errno();
    }
    let ghost before = *fs;
    let r = fs.vfs.truncate(f.ino, length as u64);
    proof { FileSystem::lemma_wf_after_vfs(before, *fs); }
    match r {
        Ok(()) => 0,
        Err(e) => e.to_errno(),
    }
}


/// `faccessat` grants an access exactly when, for each right it asks,
/// some class (owner, group or others) has that right's bit: `R_OK` needs
/// one of 0o400, 0o040, 0o004; `W_OK` one of 0o200, 0o020, 0o002; `X_OK`
/// one of 0o100, 0o010, 0o001.
pub proof fn law_access_bits(m: u32, mode: i32)
    ensures
        access_ok(m, mode) <==> {
            &&& mode & R_OK != 0 ==> (m & 0o400 != 0 || m & 0o040 != 0 || m & 0o004 != 0)
            &&& mode & W_OK != 0 ==> (m & 0o200 != 0 || m & 0o020 != 0 || m & 0o002 != 0)
            &&& mode & X_OK != 0 ==> (m & 0o100 != 0 || m & 0o010 != 0 || m & 0o001 != 0)
        },
{
    assert((m & 0o444 != 0) == (m & 0o400 != 0 || m & 0o040 != 0 || m & 0o004 != 0)) by (bit_vector);
    assert((m & 0o222 != 0) == (m & 0o200 != 0 || m & 0o020 != 0 || m & 0o002 != 0)) by (bit_vector);
    assert((m & 0o111 != 0) == (m & 0o100 != 0 || m & 0o010 != 0 || m & 0o001 != 0)) by (bit_vector);
}

} // verus!
