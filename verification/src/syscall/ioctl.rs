//! `ioctl`: the requests the kernel answers itself, and which it leaves to
//! the device behind the file.

use vstd::prelude::*;
use crate::errno::{FsError, EBADF, EINVAL, ENOTTY, EOPNOTSUPP};
use crate::fd_table::{FdTable, FdEntry, entry};
use crate::file::{FileSystem, OpenFile, O_NONBLOCK};
use crate::syscall::fcntl::{fd_open};
use crate::syscall::fs::err_ret;

verus! {

pub const TCGETS: u32 = 0x5401;
pub const TCSETS: u32 = 0x5402;
pub const TCSETSW: u32 = 0x5403;
pub const TCSETSF: u32 = 0x5404;
pub const TIOCSCTTY: u32 = 0x540e;
pub const TIOCGPGRP: u32 = 0x540f;
pub const TIOCSPGRP: u32 = 0x5410;
pub const TIOCGWINSZ: u32 = 0x5413;
pub const TIOCSWINSZ: u32 = 0x5414;
pub const FIONREAD: u32 = 0x541b;
pub const FIONBIO: u32 = 0x5421;
pub const FIOASYNC: u32 = 0x5452;
pub const VT_OPENQRY: u32 = 0x5600;
pub const SIOCGIFCONF: u32 = 0x8912;
pub const SIOCGIFFLAGS: u32 = 0x8913;
pub const SIOCSIFFLAGS: u32 = 0x8914;
pub const SIOCGIFADDR: u32 = 0x8915;
pub const SIOCSIFADDR: u32 = 0x8916;
pub const SIOCGIFNETMASK: u32 = 0x891b;
pub const SIOCSIFNETMASK: u32 = 0x891c;
pub const SIOCGIFMTU: u32 = 0x8921;
pub const SIOCSIFMTU: u32 = 0x8922;
pub const SIOCSIFHWADDR: u32 = 0x8924;
pub const SIOCGIFHWADDR: u32 = 0x8927;
pub const SIOCGIFINDEX: u32 = 0x8933;

/// What `ioctl` decided.
#[derive(Clone, Copy, Debug, PartialEq, Eq, Structural)]
pub enum IoctlOutcome {
    /// Finished; the value to return.
    Done(isize),
    /// Write this `i32` to the user address in `arg`, then return 0.
    WriteInt(i32),
    /// Set the length of the user's `ifconf` to 0 (no interface is listed), then return 0.
    ClearIfconf,
    /// A terminal or device request: the file's own handler answers it.
    Device,
}

/// The interface requests that read a setting.
pub open spec fn ifreq_get(request: u32) -> bool {
    request == SIOCGIFADDR || request == SIOCGIFFLAGS || request == SIOCGIFNETMASK || request == SIOCGIFMTU
        || request == SIOCGIFHWADDR || request == SIOCGIFINDEX
}

/// The interface requests that change a setting.
pub open spec fn ifreq_set(request: u32) -> bool {
    request == SIOCSIFADDR || request == SIOCSIFFLAGS || request == SIOCSIFNETMASK || request == SIOCSIFMTU
        || request == SIOCSIFHWADDR
}

/// The bytes left to read in `f`: its size past the offset, as an `i32`.
pub open spec fn readable_bytes(fs: &FileSystem, f: OpenFile) -> i32 {
    if f.has_dentry() {
        let size = fs.vfs.inodes()[f.ino as int].size;
        if size > f.offset { (size - f.offset) as i32 } else { 0 }
    } else {
        0
    }
}

/// The effect of `ioctl(fd, request, arg)`; `user_int` is the `i32` at the
/// user address `arg` for the requests that read one.
pub open spec fn ioctl_spec(fs: &FileSystem, t: Seq<Option<FdEntry>>, pgid: u32, fd: i32, request: u32,
    arg: usize, user_int: i32, r: IoctlOutcome, files: Seq<OpenFile>, pgid2: u32) -> bool {
    let fail = |e: i32| r == IoctlOutcome::Done((-(e as int)) as isize) && files == fs.files@ && pgid2 == pgid;
    if fd < 0 {
        fail(EBADF)
    } else {
        match fd_open(fs, t, fd as usize) {
            Err(_) => fail(EBADF),
            Ok((id, f)) => if request == FIONBIO {
                if arg == 0 { fail(EINVAL) } else {
                    r == IoctlOutcome::Done(0) && pgid2 == pgid && files == fs.files@.update(id as int,
                        OpenFile { flags: if user_int != 0 { f.flags | O_NONBLOCK } else { f.flags & !O_NONBLOCK }, ..f })
                }
            } else if request == FIONREAD {
                if arg == 0 { fail(EINVAL) } else {
                    r == IoctlOutcome::WriteInt(readable_bytes(fs, f)) && files == fs.files@ && pgid2 == pgid
                }
            } else if request == FIOASYNC {
                if arg == 0 { fail(EINVAL) } else { fail(EOPNOTSUPP) }
            } else if request == TIOCGPGRP {
                if arg == 0 { fail(EINVAL) } else {
                    r == IoctlOutcome::WriteInt(pgid as i32) && files == fs.files@ && pgid2 == pgid
                }
            } else if request == TIOCSPGRP {
                if arg == 0 { fail(EINVAL) } else {
                    r == IoctlOutcome::Done(0) && files == fs.files@ && pgid2 == user_int as u32
                }
            } else if request == TIOCSCTTY {
                r == IoctlOutcome::Done(0) && files == fs.files@ && pgid2 == pgid
            } else if request == VT_OPENQRY {
                if arg == 0 { fail(EINVAL) } else { fail(ENOTTY) }
            } else if request == SIOCGIFCONF {
                if arg == 0 { fail(EINVAL) } else {
                    r == IoctlOutcome::ClearIfconf && files == fs.files@ && pgid2 == pgid
                }
            } else if ifreq_get(request) || ifreq_set(request) {
                if arg == 0 { fail(EINVAL) } else { fail(EOPNOTSUPP) }
            } else {
                r == IoctlOutcome::Device && files == fs.files@ && pgid2 == pgid
            },
        }
    }
}

/// Device control. `pgid` is the caller's process group, which the
/// terminal requests read and set.
pub fn ioctl(fs: &mut FileSystem, fdt: &FdTable, pgid: &mut u32, fd: i32, request: u32, arg: usize,
    user_int: i32) -> (r: IoctlOutcome)
    requires
        old(fs).wf(),
    ensures
        final(fs).wf(),
        final(fs).vfs == old(fs).vfs,
        final(fs).mounts == old(fs).mounts,
        ioctl_spec(&*old(fs), fdt@, *old(pgid), fd, request, arg, user_int, r, final(fs).files@, *final(pgid)),
{
    if fd < 0 {
        return IoctlOutcome::Done(-(EBADF as isize));
    }
    let (id, f) = match fdt.get(fd as usize) {
        Err(_) => return IoctlOutcome::Done(-(EBADF as isize)),
        Ok(e) => match fs.get_file(e.file) {
            None => return IoctlOutcome::Done(-(EBADF as isize)),
            Some(f) => (e.file, f),
        },
    };
    assert(f.has_dentry() ==> fs.vfs.valid(f.ino));
    if request == FIONBIO {
        if arg == 0 {
            return IoctlOutcome::Done(-(EINVAL as isize));
        }
        let flags = if user_int != 0 { f.flags | O_NONBLOCK } else { f.flags & !O_NONBLOCK };
        fs.set_file(id, OpenFile { flags, ..f });
        IoctlOutcome::Done(0)
    } else if request == FIONREAD {
        if arg == 0 {
            return IoctlOutcome::Done(-(EINVAL as isize));
        }
        let avail: i32 = if f.kind == crate::file::FileKind::Regular || f.kind == crate::file::FileKind::CharDevice
            || f.kind == crate::file::FileKind::BlockDevice {
            let size = fs.vfs.inode(f.ino).size;
            if size > f.offset { (size - f.offset) as i32 } else { 0 }
        } else {
            0
        };
        IoctlOutcome::WriteInt(avail)
    } else if request == FIOASYNC {
        if arg == 0 {
            return IoctlOutcome::Done(-(EINVAL as isize));
        }
        IoctlOutcome::Done(-(EOPNOTSUPP as isize))
    } else if request == TIOCGPGRP {
        if arg == 0 {
            return IoctlOutcome::Done(-(EINVAL as isize));
        }
        IoctlOutcome::WriteInt(*pgid as i32)
    } else if request == TIOCSPGRP {
        if arg == 0 {
            return IoctlOutcome::Done(-(EINVAL as isize));
        }
        *pgid = user_int as u32;
        IoctlOutcome::Done(0)
    } else if request == TIOCSCTTY {
        IoctlOutcome::Done(0)
    } else if request == VT_OPENQRY {
        if arg == 0 {
            return IoctlOutcome::Done(-(EINVAL as isize));
        }
        IoctlOutcome::Done(-(ENOTTY as isize))
    } else if request == SIOCGIFCONF {
        if arg == 0 {
            return IoctlOutcome::Done(-(EINVAL as isize));
        }
        IoctlOutcome::ClearIfconf
    } else if request == SIOCGIFADDR || request == SIOCGIFFLAGS || request == SIOCGIFNETMASK
        || request == SIOCGIFMTU || request == SIOCGIFHWADDR || request == SIOCGIFINDEX
        || request == SIOCSIFADDR || request == SIOCSIFFLAGS || request == SIOCSIFNETMASK
        || request == SIOCSIFMTU || request == SIOCSIFHWADDR {
        if arg == 0 {
            return IoctlOutcome::Done(-(EINVAL as isize));
        }
        IoctlOutcome::Done(-(EOPNOTSUPP as isize))
    } else {
        IoctlOutcome::Device
    }
}

/// What `ioctl` returns for the answer of a device's own handler: a file
/// that has no such request, or is no terminal, gives `-ENOTTY`.
pub fn device_ioctl_result(res: Result<isize, FsError>) -> (r: isize)
    ensures
        match res {
            Ok(v) => r == v,
            Err(FsError::NotSupported) | Err(FsError::NotTty) => r == -(ENOTTY as isize),
            Err(e) => r == err_ret(e),
        },
{
    match res {
        Ok(v) => v,
        Err(FsError::NotSupported) | Err(FsError::NotTty) => -(ENOTTY as isize),
        Err(e) => e.to_errno(),
    }
}

} // verus!
