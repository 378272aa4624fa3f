//! `fcntl`, `dup` and `dup3`.

use vstd::prelude::*;
use crate::errno::{FsError, EINVAL};
use crate::fd_table::{FdTable, FdEntry, entry, lowest_free, with_entry, MAX_FDS, FD_CLOEXEC};
use crate::file::{FileSystem, OpenFile, FileKind, O_ACCMODE, O_APPEND, O_NONBLOCK, O_CLOEXEC};
use crate::syscall::fs::err_ret;

verus! {

pub const F_DUPFD: i32 = 0;
pub const F_GETFD: i32 = 1;
pub const F_SETFD: i32 = 2;
pub const F_GETFL: i32 = 3;
pub const F_SETFL: i32 = 4;
pub const F_GETLK: i32 = 5;
pub const F_SETLK: i32 = 6;
pub const F_SETLKW: i32 = 7;
pub const F_SETOWN: i32 = 8;
pub const F_GETOWN: i32 = 9;
pub const F_SETSIG: i32 = 10;
pub const F_GETSIG: i32 = 11;
pub const F_DUPFD_CLOEXEC: i32 = 1030;
pub const F_SETPIPE_SZ: i32 = 1031;
pub const F_GETPIPE_SZ: i32 = 1032;

pub const O_ASYNC: u32 = 0o20000;
pub const O_DIRECT: u32 = 0o40000;
pub const O_NOATIME: u32 = 0o1000000;
/// The status flags `F_SETFL` may change.
pub const SETFL_MASK: u32 = 0o1064000;

/// The commands `fcntl` knows.
pub open spec fn known_cmd(cmd: i32) -> bool {
    (F_DUPFD <= cmd <= F_GETSIG) || cmd == F_DUPFD_CLOEXEC || cmd == F_SETPIPE_SZ || cmd == F_GETPIPE_SZ
}

/// A record-lock request that `fcntl` has checked and hands on to the
/// lock manager: the inode, the file's offset and size (to place the
/// range), and whether it tests, sets, or sets and waits.
#[derive(Clone, Copy, Debug, PartialEq, Eq, Structural)]
pub struct LockRequest {
    pub cmd: i32,
    pub ino: u64,
    pub offset: u64,
    pub size: u64,
}

/// What `fcntl` did: finished with a return value, or a lock request left
/// to the lock manager.
#[derive(Clone, Copy, Debug, PartialEq, Eq, Structural)]
pub enum FcntlOutcome {
    Done(isize),
    Lock(LockRequest),
}

/// The open file `fd` refers to, with its id.
pub open spec fn fd_open(fs: &FileSystem, t: Seq<Option<FdEntry>>, fd: usize) -> Result<(u64, OpenFile), FsError> {
    match entry(t, fd as int) {
        None => Err(FsError::BadFileDescriptor),
        Some(e) => match fs.file(e.file) {
            None => Err(FsError::BadFileDescriptor),
            Some(f) => Ok((e.file, f)),
        },
    }
}

fn get_open(fs: &FileSystem, fdt: &FdTable, fd: usize) -> (r: Result<(u64, OpenFile), FsError>)
    requires
        fs.wf(),
    ensures
        r == fd_open(fs, fdt@, fd),
{
    match fdt.get(fd) {
        Err(e) => Err(e),
        Ok(e) => match fs.get_file(e.file) {
            None => Err(FsError::BadFileDescriptor),
            Some(f) => Ok((e.file, f)),
        },
    }
}

/// The status flags after `F_SETFL` with `new`: the access mode and the
/// flags it may not change are kept.
pub open spec fn setfl_flags(cur: u32, new: u32) -> u32 {
    (cur & O_ACCMODE) | (cur & !SETFL_MASK) | new
}

/// The effect of `fcntl(fd, cmd, arg)` on the file table and the open
/// files, and what it gives back.
pub open spec fn fcntl_spec(fs: &FileSystem, t: Seq<Option<FdEntry>>, fd: usize, cmd: i32, arg: usize,
    r: FcntlOutcome, files: Seq<OpenFile>, t2: Seq<Option<FdEntry>>) -> bool {
    let same = files == fs.files@ && t2 == t;
    if !known_cmd(cmd) {
        r == FcntlOutcome::Done(err_ret(FsError::InvalidArgument)) && same
    } else if cmd == F_GETFD {
        same && match entry(t, fd as int) {
            Some(e) => r == FcntlOutcome::Done(if e.cloexec { FD_CLOEXEC as isize } else { 0 }),
            None => r == FcntlOutcome::Done(err_ret(FsError::BadFileDescriptor)),
        }
    } else if cmd == F_SETFD {
        if arg & !(FD_CLOEXEC as usize) != 0 {
            r == FcntlOutcome::Done(err_ret(FsError::InvalidArgument)) && same
        } else {
            files == fs.files@ && match entry(t, fd as int) {
                Some(e) => r == FcntlOutcome::Done(0) && t2 == t.update(fd as int,
                    Some(FdEntry { file: e.file, cloexec: arg != 0 })),
                None => r == FcntlOutcome::Done(err_ret(FsError::BadFileDescriptor)) && t2 == t,
            }
        }
    } else if cmd == F_DUPFD || cmd == F_DUPFD_CLOEXEC {
        files == fs.files@ && match entry(t, fd as int) {
            None => r == FcntlOutcome::Done(err_ret(FsError::BadFileDescriptor)) && t2 == t,
            Some(e) => match r {
                FcntlOutcome::Done(n) => if n >= 0 {
                    lowest_free(t, arg as int, n as int) && n < MAX_FDS
                        && t2 == with_entry(t, n as int, Some(FdEntry { file: e.file, cloexec: cmd == F_DUPFD_CLOEXEC }))
                } else {
                    n == err_ret(FsError::TooManyOpenFiles) && t2 == t
                        && forall|k: int| lowest_free(t, arg as int, k) ==> k >= MAX_FDS
                },
                FcntlOutcome::Lock(_) => false,
            },
        }
    } else if cmd == F_SETFL && arg & !(SETFL_MASK as usize) != 0 {
        r == FcntlOutcome::Done(err_ret(FsError::InvalidArgument)) && same
    } else if (cmd == F_GETLK || cmd == F_SETLK || cmd == F_SETLKW) && arg == 0 {
        r == FcntlOutcome::Done(err_ret(FsError::InvalidArgument)) && same
    } else {
        t2 == t && match fd_open(fs, t, fd) {
            Err(e) => r == FcntlOutcome::Done(err_ret(e)) && files == fs.files@,
            Ok((id, f)) => if cmd == F_GETFL {
                r == FcntlOutcome::Done(f.flags as isize) && files == fs.files@
            } else if cmd == F_SETFL {
                r == FcntlOutcome::Done(0) && files == fs.files@.update(id as int,
                    OpenFile { flags: setfl_flags(f.flags, arg as u32), ..f })
            } else if cmd == F_GETLK || cmd == F_SETLK || cmd == F_SETLKW {
                files == fs.files@ && if !f.has_dentry() {
                    r == FcntlOutcome::Done(err_ret(FsError::InvalidArgument))
                } else {
                    r == FcntlOutcome::Lock(LockRequest { cmd, ino: f.ino, offset: f.offset,
                        size: fs.vfs.inodes()[f.ino as int].size })
                }
            } else if cmd == F_GETOWN {
                r == FcntlOutcome::Done(f.owner as isize) && files == fs.files@
            } else if cmd == F_SETOWN {
                r == FcntlOutcome::Done(0) && files == fs.files@.update(id as int,
                    OpenFile { owner: arg as i32, ..f })
            } else if cmd == F_SETSIG || cmd == F_GETSIG {
                r == FcntlOutcome::Done(err_ret(FsError::NotSupported)) && files == fs.files@
            } else if f.kind != FileKind::Pipe {
                r == FcntlOutcome::Done(err_ret(FsError::NotSupported)) && files == fs.files@
            } else if cmd == F_GETPIPE_SZ {
                r == FcntlOutcome::Done(f.pipe_size as isize) && files == fs.files@
            } else {
                r == FcntlOutcome::Done(arg as isize) && files == fs.files@.update(id as int,
                    OpenFile { pipe_size: arg, ..f })
            },
        }
    }
}

/// Duplicates `old_fd` into the lowest free descriptor at or above `min`.
fn fcntl_dupfd(fdt: &mut FdTable, old_fd: usize, min: usize, cloexec: bool) -> (r: isize)
    requires
        old(fdt).wf(),
    ensures
        final(fdt).wf(),
        match entry(old(fdt)@, old_fd as int) {
            None => r == err_ret(FsError::BadFileDescriptor) && final(fdt)@ == old(fdt)@,
            Some(e) => if r >= 0 {
                lowest_free(old(fdt)@, min as int, r as int) && r < MAX_FDS
                    && final(fdt)@ == with_entry(old(fdt)@, r as int, Some(FdEntry { file: e.file, cloexec }))
            } else {
                r == err_ret(FsError::TooManyOpenFiles) && final(fdt)@ == old(fdt)@
                    && forall|k: int| lowest_free(old(fdt)@, min as int, k) ==> k >= MAX_FDS
            },
        },
{
    match fdt.dup_from(old_fd, min, cloexec) {
        Ok(fd) => fd as isize,
        Err(e) => e.to_errno(),
    }
}

/// File control: descriptor flags, status flags, duplication, owner, pipe
/// size, and the checks before a record lock.
pub fn fcntl(fs: &mut FileSystem, fdt: &mut FdTable, fd: usize, cmd: i32, arg: usize) -> (r: FcntlOutcome)
    requires
        old(fs).wf(),
        old(fdt).wf(),
    ensures
        final(fs).wf(),
        final(fdt).wf(),
        final(fs).vfs == old(fs).vfs,
        final(fs).mounts == old(fs).mounts,
        fcntl_spec(&*old(fs), old(fdt)@, fd, cmd, arg, r, final(fs).files@, final(fdt)@),
{
    if !((F_DUPFD <= cmd && cmd <= F_GETSIG) || cmd == F_DUPFD_CLOEXEC || cmd == F_SETPIPE_SZ
        || cmd == F_GETPIPE_SZ) {
        return FcntlOutcome::Done(-(EINVAL as isize));
    }
    if cmd == F_GETFD {
        return match fdt.get_fd_flags(fd) {
            Ok(f) => FcntlOutcome::Done(f as isize),
            Err(e) => FcntlOutcome::Done(e.to_errno()),
        };
    }
    if cmd == F_SETFD {
        if arg & !(FD_CLOEXEC as usize) != 0 {
            return FcntlOutcome::Done(-(EINVAL as isize));
        }
        return match fdt.set_fd_flags(fd, arg != 0) {
            Ok(()) => FcntlOutcome::Done(0),
            Err(e) => FcntlOutcome::Done(e.to_errno()),
        };
    }
    if cmd == F_DUPFD || cmd == F_DUPFD_CLOEXEC {
        return FcntlOutcome::Done(fcntl_dupfd(fdt, fd, arg, cmd == F_DUPFD_CLOEXEC));
    }
    if cmd == F_SETFL && arg & !(SETFL_MASK as usize) != 0 {
        return FcntlOutcome::Done(-(EINVAL as isize));
    }
    if (cmd == F_GETLK || cmd == F_SETLK || cmd == F_SETLKW) && arg == 0 {
        return FcntlOutcome::Done(-(EINVAL as isize));
    }
    let (id, f) = match get_open(fs, fdt, fd) {
        Err(e) => return FcntlOutcome::Done(e.to_errno()),
        Ok(x) => x,
    };
    assert(f.has_dentry() ==> fs.vfs.valid(f.ino));
    if cmd == F_GETFL {
        FcntlOutcome::Done(f.flags as isize)
    } else if cmd == F_SETFL {
        let nf = (f.flags & O_ACCMODE) | (f.flags & !SETFL_MASK) | (arg as u32);
        fs.set_file(id, OpenFile { flags: nf, ..f });
        FcntlOutcome::Done(0)
    } else if cmd == F_GETLK || cmd == F_SETLK || cmd == F_SETLKW {
        if !(f.kind == FileKind::Regular || f.kind == FileKind::CharDevice || f.kind == FileKind::BlockDevice) {
            return FcntlOutcome::Done(FsError::InvalidArgument.to_errno());
        }
        let size = fs.vfs.inode(f.ino).size;
        FcntlOutcome::Lock(LockRequest { cmd, ino: f.ino, offset: f.offset, size })
    } else if cmd == F_GETOWN {
        FcntlOutcome::Done(f.owner as isize)
    } else if cmd == F_SETOWN {
        fs.set_file(id, OpenFile { owner: arg as i32, ..f });
        FcntlOutcome::Done(0)
    } else if cmd == F_SETSIG || cmd == F_GETSIG {
        FcntlOutcome::Done(FsError::NotSupported.to_errno())
    } else if f.kind != FileKind::Pipe {
        FcntlOutcome::Done(FsError::NotSupported.to_errno())
    } else if cmd == F_GETPIPE_SZ {
        FcntlOutcome::Done(f.pipe_size as isize)
    } else {
        fs.set_file(id, OpenFile { pipe_size: arg, ..f });
        FcntlOutcome::Done(arg as isize)
    }
}

/// Duplicates `oldfd` into the lowest free descriptor.
pub fn dup(fdt: &mut FdTable, oldfd: usize) -> (r: isize)
    requires
        old(fdt).wf(),
    ensures
        final(fdt).wf(),
        match entry(old(fdt)@, oldfd as int) {
            None => r == err_ret(FsError::BadFileDescriptor) && final(fdt)@ == old(fdt)@,
            Some(e) => if r >= 0 {
                lowest_free(old(fdt)@, 0, r as int) && r < MAX_FDS
                    && final(fdt)@ == with_entry(old(fdt)@, r as int, Some(FdEntry { file: e.file, cloexec: false }))
            } else {
                r == err_ret(FsError::TooManyOpenFiles) && final(fdt)@ == old(fdt)@
                    && forall|k: int| lowest_free(old(fdt)@, 0, k) ==> k >= MAX_FDS
            },
        },
{
    match fdt.dup(oldfd) {
        Ok(fd) => fd as isize,
        Err(e) => e.to_errno(),
    }
}

/// Makes `newfd` a copy of `oldfd`; `flags` may hold only `O_CLOEXEC`.
pub fn dup3(fdt: &mut FdTable, oldfd: usize, newfd: usize, flags: u32) -> (r: isize)
    requires
        old(fdt).wf(),
    ensures
        final(fdt).wf(),
        flags & !O_CLOEXEC != 0 ==> r == err_ret(FsError::InvalidArgument) && final(fdt)@ == old(fdt)@,
        flags & !O_CLOEXEC == 0 ==> match entry(old(fdt)@, oldfd as int) {
            None => r == err_ret(FsError::BadFileDescriptor) && final(fdt)@ == old(fdt)@,
            Some(e) => if oldfd == newfd {
                r == err_ret(FsError::InvalidArgument) && final(fdt)@ == old(fdt)@
            } else if newfd >= MAX_FDS {
                r == err_ret(FsError::BadFileDescriptor) && final(fdt)@ == old(fdt)@
            } else {
                r == newfd && final(fdt)@ == with_entry(old(fdt)@, newfd as int,
                    Some(FdEntry { file: e.file, cloexec: flags & O_CLOEXEC != 0 }))
            },
        },
{
    if flags & !O_CLOEXEC != 0 {
        return FsError::InvalidArgument.to_errno();
    }
    match fdt.dup3(oldfd, newfd, flags & O_CLOEXEC != 0) {
        Ok(fd) => fd as isize,
        Err(e) => e.to_errno(),
    }
}

} // verus!
