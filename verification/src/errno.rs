//! Linux error numbers used by the system call layer.

use vstd::prelude::*;

verus! {

pub const EPERM: i32 = 1;
pub const ENOENT: i32 = 2;
pub const ESRCH: i32 = 3;
pub const EINTR: i32 = 4;
pub const EIO: i32 = 5;
pub const ENOEXEC: i32 = 8;
pub const EBADF: i32 = 9;
pub const ECHILD: i32 = 10;
pub const EAGAIN: i32 = 11;
pub const ENOMEM: i32 = 12;
pub const EACCES: i32 = 13;
pub const EFAULT: i32 = 14;
pub const EEXIST: i32 = 17;
pub const ENODEV: i32 = 19;
pub const ENOTDIR: i32 = 20;
pub const EISDIR: i32 = 21;
pub const EINVAL: i32 = 22;
pub const EMFILE: i32 = 24;
pub const ENOTTY: i32 = 25;
pub const ENOSPC: i32 = 28;
pub const ERANGE: i32 = 34;
pub const ENAMETOOLONG: i32 = 36;
pub const ENOSYS: i32 = 38;
pub const ENOTEMPTY: i32 = 39;
pub const ENOTSOCK: i32 = 88;
pub const ENOPROTOOPT: i32 = 92;
pub const ESOCKTNOSUPPORT: i32 = 94;
pub const EOPNOTSUPP: i32 = 95;
pub const EAFNOSUPPORT: i32 = 97;
pub const EADDRINUSE: i32 = 98;
pub const EADDRNOTAVAIL: i32 = 99;
pub const EISCONN: i32 = 106;
pub const ENOTCONN: i32 = 107;
pub const ETIMEDOUT: i32 = 110;
pub const ECONNREFUSED: i32 = 111;
pub const EINPROGRESS: i32 = 115;

/// The value a system call returns for errno `e`.
pub open spec fn neg_errno(e: i32) -> isize {
    (-(e as int)) as isize
}

/// File system errors and their errno values.
#[derive(Clone, Copy, Debug, PartialEq, Eq, Structural)]
pub enum FsError {
    NotFound,
    AlreadyExists,
    NotDirectory,
    IsDirectory,
    PermissionDenied,
    InvalidArgument,
    BadFileDescriptor,
    TooManyOpenFiles,
    NotSupported,
    NotEmpty,
    NotTty,
    NoSpace,
    NameTooLong,
    IoError,
    WouldBlock,
}

impl FsError {
    /// The positive errno.
    pub open spec fn errno(self) -> i32 {
        match self {
            FsError::NotFound => ENOENT,
            FsError::AlreadyExists => EEXIST,
            FsError::NotDirectory => ENOTDIR,
            FsError::IsDirectory => EISDIR,
            FsError::PermissionDenied => EACCES,
            FsError::InvalidArgument => EINVAL,
            FsError::BadFileDescriptor => EBADF,
            FsError::TooManyOpenFiles => EMFILE,
            FsError::NotSupported => EOPNOTSUPP,
            FsError::NotEmpty => ENOTEMPTY,
            FsError::NotTty => ENOTTY,
            FsError::NoSpace => ENOSPC,
            FsError::NameTooLong => ENAMETOOLONG,
            FsError::IoError => EIO,
            FsError::WouldBlock => EAGAIN,
        }
    }

    /// The negated errno, as a system call returns it.
    pub fn to_errno(&self) -> (r: isize)
        ensures
            r == -(self.errno() as isize),
    {
        let e = match self {
            FsError::NotFound => ENOENT,
            FsError::AlreadyExists => EEXIST,
            FsError::NotDirectory => ENOTDIR,
            FsError::IsDirectory => EISDIR,
            FsError::PermissionDenied => EACCES,
            FsError::InvalidArgument => EINVAL,
            FsError::BadFileDescriptor => EBADF,
            FsError::TooManyOpenFiles => EMFILE,
            FsError::NotSupported => EOPNOTSUPP,
            FsError::NotEmpty => ENOTEMPTY,
            FsError::NotTty => ENOTTY,
            FsError::NoSpace => ENOSPC,
            FsError::NameTooLong => ENAMETOOLONG,
            FsError::IoError => EIO,
            FsError::WouldBlock => EAGAIN,
        };
        -(e as isize)
    }
}

} // verus!
