//! The system call numbers the kernel handles, and the choice of handler.

use vstd::prelude::*;
use crate::errno::ENOSYS;

verus! {

pub const SYS_GETCWD: usize = 17;
pub const SYS_DUP: usize = 23;
pub const SYS_DUP3: usize = 24;
pub const SYS_FCNTL: usize = 25;
pub const SYS_IOCTL: usize = 29;
pub const SYS_MKNODAT: usize = 33;
pub const SYS_MKDIRAT: usize = 34;
pub const SYS_UNLINKAT: usize = 35;
pub const SYS_SYMLINKAT: usize = 36;
pub const SYS_MOUNT: usize = 40;
pub const SYS_UMOUNT2: usize = 39;
pub const SYS_STATFS: usize = 43;
pub const SYS_FACCESSAT: usize = 48;
pub const SYS_CHDIR: usize = 49;
pub const SYS_FCHMODAT: usize = 53;
pub const SYS_FCHOWNAT: usize = 54;
pub const SYS_OPENAT: usize = 56;
pub const SYS_CLOSE: usize = 57;
pub const SYS_PIPE2: usize = 59;
pub const SYS_GETDENTS64: usize = 61;
pub const SYS_LSEEK: usize = 62;
pub const SYS_FTRUNCATE: usize = 46;
pub const SYS_READ: usize = 63;
pub const SYS_WRITE: usize = 64;
pub const SYS_READV: usize = 65;
pub const SYS_WRITEV: usize = 66;
pub const SYS_PREAD64: usize = 67;
pub const SYS_PWRITE64: usize = 68;
pub const SYS_PREADV: usize = 69;
pub const SYS_PWRITEV: usize = 70;
pub const SYS_SENDFILE: usize = 71;
pub const SYS_PSELECT6: usize = 72;
pub const SYS_PPOLL: usize = 73;
pub const SYS_READLINKAT: usize = 78;
pub const SYS_FSTATAT: usize = 79;
pub const SYS_FSTAT: usize = 80;
pub const SYS_SYNC: usize = 81;
pub const SYS_FSYNC: usize = 82;
pub const SYS_FDATASYNC: usize = 83;
pub const SYS_UTIMENSAT: usize = 88;
pub const SYS_EXIT: usize = 93;
pub const SYS_EXIT_GROUP: usize = 94;
pub const SYS_SET_TID_ADDRESS: usize = 96;
pub const SYS_FUTEX: usize = 98;
pub const SYS_SET_ROBUST_LIST: usize = 99;
pub const SYS_GET_ROBUST_LIST: usize = 100;
pub const SYS_NANOSLEEP: usize = 101;
pub const SYS_GETITIMER: usize = 102;
pub const SYS_SETITIMER: usize = 103;
pub const SYS_CLOCK_SETTIME: usize = 112;
pub const SYS_CLOCK_GETTIME: usize = 113;
pub const SYS_CLOCK_GETRES: usize = 114;
pub const SYS_SYSLOG: usize = 116;
pub const SYS_SCHED_YIELD: usize = 124;
pub const SYS_KILL: usize = 129;
pub const SYS_TKILL: usize = 130;
pub const SYS_TGKILL: usize = 131;
pub const SYS_SIGALTSTACK: usize = 132;
pub const SYS_RT_SIGSUSPEND: usize = 133;
pub const SYS_RT_SIGACTION: usize = 134;
pub const SYS_RT_SIGPROCMASK: usize = 135;
pub const SYS_RT_SIGPENDING: usize = 136;
pub const SYS_RT_SIGTIMEDWAIT: usize = 137;
pub const SYS_RT_SIGRETURN: usize = 139;
pub const SYS_REBOOT: usize = 142;
pub const SYS_SETGID: usize = 144;
pub const SYS_SETUID: usize = 146;
pub const SYS_SETRESUID: usize = 147;
pub const SYS_GETRESUID: usize = 148;
pub const SYS_SETRESGID: usize = 149;
pub const SYS_GETRESGID: usize = 150;
pub const SYS_TIMES: usize = 153;
pub const SYS_SETPGID: usize = 154;
pub const SYS_SETSID: usize = 157;
pub const SYS_UNAME: usize = 160;
pub const SYS_SETHOSTNAME: usize = 161;
pub const SYS_GETRLIMIT: usize = 163;
pub const SYS_SETRLIMIT: usize = 164;
pub const SYS_UMASK: usize = 166;
pub const SYS_GETTIMEOFDAY: usize = 169;
pub const SYS_GETPID: usize = 172;
pub const SYS_GETPPID: usize = 173;
pub const SYS_GETPGID: usize = 155;
pub const SYS_GETUID: usize = 174;
pub const SYS_GETEUID: usize = 175;
pub const SYS_GETGID: usize = 176;
pub const SYS_GETEGID: usize = 177;
pub const SYS_GETTID: usize = 178;
pub const SYS_SYSINFO: usize = 179;
pub const SYS_SOCKET: usize = 198;
pub const SYS_SOCKETPAIR: usize = 199;
pub const SYS_BIND: usize = 200;
pub const SYS_LISTEN: usize = 201;
pub const SYS_ACCEPT: usize = 202;
pub const SYS_CONNECT: usize = 203;
pub const SYS_GETSOCKNAME: usize = 204;
pub const SYS_GETPEERNAME: usize = 205;
pub const SYS_SENDTO: usize = 206;
pub const SYS_RECVFROM: usize = 207;
pub const SYS_SETSOCKOPT: usize = 208;
pub const SYS_GETSOCKOPT: usize = 209;
pub const SYS_SHUTDOWN: usize = 210;
pub const SYS_CLONE: usize = 220;
pub const SYS_EXECVE: usize = 221;
pub const SYS_ACCEPT4: usize = 242;
pub const SYS_WAIT4: usize = 260;
pub const SYS_PRLIMIT64: usize = 261;
pub const SYS_BRK: usize = 214;
pub const SYS_MUNMAP: usize = 215;
pub const SYS_MMAP: usize = 222;
pub const SYS_MPROTECT: usize = 226;
pub const SYS_SYNCFS: usize = 267;
pub const SYS_RENAMEAT2: usize = 276;
pub const SYS_GETRANDOM: usize = 278;
pub const SYS_STATX: usize = 291;

/// The handler a system call number selects.
#[derive(Clone, Copy, Debug, PartialEq, Eq, Structural)]
pub enum Syscall {
    Getcwd,
    Dup,
    Dup3,
    Fcntl,
    Ioctl,
    Mknodat,
    Mkdirat,
    Unlinkat,
    Symlinkat,
    Mount,
    Umount2,
    Statfs,
    Faccessat,
    Chdir,
    Fchmodat,
    Fchownat,
    Openat,
    Close,
    Pipe2,
    Getdents64,
    Lseek,
    Ftruncate,
    Read,
    Write,
    Readv,
    Writev,
    Pread64,
    Pwrite64,
    Preadv,
    Pwritev,
    Sendfile,
    Pselect6,
    Ppoll,
    Readlinkat,
    Newfstatat,
    Fstat,
    Sync,
    Fsync,
    Fdatasync,
    Utimensat,
    Exit,
    ExitGroup,
    SetTidAddress,
    Futex,
    SetRobustList,
    GetRobustList,
    Nanosleep,
    Getitimmer,
    Setitimmer,
    ClockSettime,
    ClockGettime,
    ClockGetres,
    Syslog,
    SchedYield,
    Kill,
    Tkill,
    Tgkill,
    Sigaltstack,
    RtSigsuspend,
    RtSigaction,
    RtSigprocmask,
    RtSigpending,
    RtSigtimedwait,
    RtSigreturn,
    Reboot,
    Setgid,
    Setuid,
    Setresuid,
    Getresuid,
    Setresgid,
    Getresgid,
    Times,
    Setpgid,
    Setsid,
    Uname,
    Sethostname,
    Getrlimit,
    Setrlimit,
    Umask,
    Gettimeofday,
    Getpid,
    Getppid,
    Getpgid,
    Getuid,
    Geteuid,
    Getgid,
    Getegid,
    Gettid,
    Sysinfo,
    Socket,
    Socketpair,
    Bind,
    Listen,
    Accept,
    Connect,
    Getsockname,
    Getpeername,
    Sendto,
    Recvfrom,
    Setsockopt,
    Getsockopt,
    Shutdown,
    Clone,
    Execve,
    Accept4,
    Wait4,
    Prlimit,
    Brk,
    Munmap,
    Mmap,
    Mprotect,
    Syncfs,
    Renameat2,
    Getrandom,
    Statx,
}

/// The handler for system call number `id`, if the kernel has one.
pub open spec fn syscall_of(id: usize) -> Option<Syscall> {
    match id {
        SYS_GETCWD => Some(Syscall::Getcwd),
        SYS_DUP => Some(Syscall::Dup),
        SYS_DUP3 => Some(Syscall::Dup3),
        SYS_FCNTL => Some(Syscall::Fcntl),
        SYS_IOCTL => Some(Syscall::Ioctl),
        SYS_MKNODAT => Some(Syscall::Mknodat),
        SYS_MKDIRAT => Some(Syscall::Mkdirat),
        SYS_UNLINKAT => Some(Syscall::Unlinkat),
        SYS_SYMLINKAT => Some(Syscall::Symlinkat),
        SYS_MOUNT => Some(Syscall::Mount),
        SYS_UMOUNT2 => Some(Syscall::Umount2),
        SYS_STATFS => Some(Syscall::Statfs),
        SYS_FACCESSAT => Some(Syscall::Faccessat),
        SYS_CHDIR => Some(Syscall::Chdir),
        SYS_FCHMODAT => Some(Syscall::Fchmodat),
        SYS_FCHOWNAT => Some(Syscall::Fchownat),
        SYS_OPENAT => Some(Syscall::Openat),
        SYS_CLOSE => Some(Syscall::Close),
        SYS_PIPE2 => Some(Syscall::Pipe2),
        SYS_GETDENTS64 => Some(Syscall::Getdents64),
        SYS_LSEEK => Some(Syscall::Lseek),
        SYS_FTRUNCATE => Some(Syscall::Ftruncate),
        SYS_READ => Some(Syscall::Read),
        SYS_WRITE => Some(Syscall::Write),
        SYS_READV => Some(Syscall::Readv),
        SYS_WRITEV => Some(Syscall::Writev),
        SYS_PREAD64 => Some(Syscall::Pread64),
        SYS_PWRITE64 => Some(Syscall::Pwrite64),
        SYS_PREADV => Some(Syscall::Preadv),
        SYS_PWRITEV => Some(Syscall::Pwritev),
        SYS_SENDFILE => Some(Syscall::Sendfile),
        SYS_PSELECT6 => Some(Syscall::Pselect6),
        SYS_PPOLL => Some(Syscall::Ppoll),
        SYS_READLINKAT => Some(Syscall::Readlinkat),
        SYS_FSTATAT => Some(Syscall::Newfstatat),
        SYS_FSTAT => Some(Syscall::Fstat),
        SYS_SYNC => Some(Syscall::Sync),
        SYS_FSYNC => Some(Syscall::Fsync),
        SYS_FDATASYNC => Some(Syscall::Fdatasync),
        SYS_UTIMENSAT => Some(Syscall::Utimensat),
        SYS_EXIT => Some(Syscall::Exit),
        SYS_EXIT_GROUP => Some(Syscall::ExitGroup),
        SYS_SET_TID_ADDRESS => Some(Syscall::SetTidAddress),
        SYS_FUTEX => Some(Syscall::Futex),
        SYS_SET_ROBUST_LIST => Some(Syscall::SetRobustList),
        SYS_GET_ROBUST_LIST => Some(Syscall::GetRobustList),
        SYS_NANOSLEEP => Some(Syscall::Nanosleep),
        SYS_GETITIMER => Some(Syscall::Getitimmer),
        SYS_SETITIMER => Some(Syscall::Setitimmer),
        SYS_CLOCK_SETTIME => Some(Syscall::ClockSettime),
        SYS_CLOCK_GETTIME => Some(Syscall::ClockGettime),
        SYS_CLOCK_GETRES => Some(Syscall::ClockGetres),
        SYS_SYSLOG => Some(Syscall::Syslog),
        SYS_SCHED_YIELD => Some(Syscall::SchedYield),
        SYS_KILL => Some(Syscall::Kill),
        SYS_TKILL => Some(Syscall::Tkill),
        SYS_TGKILL => Some(Syscall::Tgkill),
        SYS_SIGALTSTACK => Some(Syscall::Sigaltstack),
        SYS_RT_SIGSUSPEND => Some(Syscall::RtSigsuspend),
        SYS_RT_SIGACTION => Some(Syscall::RtSigaction),
        SYS_RT_SIGPROCMASK => Some(Syscall::RtSigprocmask),
        SYS_RT_SIGPENDING => Some(Syscall::RtSigpending),
        SYS_RT_SIGTIMEDWAIT => Some(Syscall::RtSigtimedwait),
        SYS_RT_SIGRETURN => Some(Syscall::RtSigreturn),
        SYS_REBOOT => Some(Syscall::Reboot),
        SYS_SETGID => Some(Syscall::Setgid),
        SYS_SETUID => Some(Syscall::Setuid),
        SYS_SETRESUID => Some(Syscall::Setresuid),
        SYS_GETRESUID => Some(Syscall::Getresuid),
        SYS_SETRESGID => Some(Syscall::Setresgid),
        SYS_GETRESGID => Some(Syscall::Getresgid),
        SYS_TIMES => Some(Syscall::Times),
        SYS_SETPGID => Some(Syscall::Setpgid),
        SYS_SETSID => Some(Syscall::Setsid),
        SYS_UNAME => Some(Syscall::Uname),
        SYS_SETHOSTNAME => Some(Syscall::Sethostname),
        SYS_GETRLIMIT => Some(Syscall::Getrlimit),
        SYS_SETRLIMIT => Some(Syscall::Setrlimit),
        SYS_UMASK => Some(Syscall::Umask),
        SYS_GETTIMEOFDAY => Some(Syscall::Gettimeofday),
        SYS_GETPID => Some(Syscall::Getpid),
        SYS_GETPPID => Some(Syscall::Getppid),
        SYS_GETPGID => Some(Syscall::Getpgid),
        SYS_GETUID => Some(Syscall::Getuid),
        SYS_GETEUID => Some(Syscall::Geteuid),
        SYS_GETGID => Some(Syscall::Getgid),
        SYS_GETEGID => Some(Syscall::Getegid),
        SYS_GETTID => Some(Syscall::Gettid),
        SYS_SYSINFO => Some(Syscall::Sysinfo),
        SYS_SOCKET => Some(Syscall::Socket),
        SYS_SOCKETPAIR => Some(Syscall::Socketpair),
        SYS_BIND => Some(Syscall::Bind),
        SYS_LISTEN => Some(Syscall::Listen),
        SYS_ACCEPT => Some(Syscall::Accept),
        SYS_CONNECT => Some(Syscall::Connect),
        SYS_GETSOCKNAME => Some(Syscall::Getsockname),
        SYS_GETPEERNAME => Some(Syscall::Getpeername),
        SYS_SENDTO => Some(Syscall::Sendto),
        SYS_RECVFROM => Some(Syscall::Recvfrom),
        SYS_SETSOCKOPT => Some(Syscall::Setsockopt),
        SYS_GETSOCKOPT => Some(Syscall::Getsockopt),
        SYS_SHUTDOWN => Some(Syscall::Shutdown),
        SYS_CLONE => Some(Syscall::Clone),
        SYS_EXECVE => Some(Syscall::Execve),
        SYS_ACCEPT4 => Some(Syscall::Accept4),
        SYS_WAIT4 => Some(Syscall::Wait4),
        SYS_PRLIMIT64 => Some(Syscall::Prlimit),
        SYS_BRK => Some(Syscall::Brk),
        SYS_MUNMAP => Some(Syscall::Munmap),
        SYS_MMAP => Some(Syscall::Mmap),
        SYS_MPROTECT => Some(Syscall::Mprotect),
        SYS_SYNCFS => Some(Syscall::Syncfs),
        SYS_RENAMEAT2 => Some(Syscall::Renameat2),
        SYS_GETRANDOM => Some(Syscall::Getrandom),
        SYS_STATX => Some(Syscall::Statx),
        _ => None,
    }
}

/// Picks the handler for system call number `id`.
pub fn decode_syscall(id: usize) -> (r: Option<Syscall>)
    ensures
        r == syscall_of(id),
{
    match id {
        SYS_GETCWD => Some(Syscall::Getcwd),
        SYS_DUP => Some(Syscall::Dup),
        SYS_DUP3 => Some(Syscall::Dup3),
        SYS_FCNTL => Some(Syscall::Fcntl),
        SYS_IOCTL => Some(Syscall::Ioctl),
        SYS_MKNODAT => Some(Syscall::Mknodat),
        SYS_MKDIRAT => Some(Syscall::Mkdirat),
        SYS_UNLINKAT => Some(Syscall::Unlinkat),
        SYS_SYMLINKAT => Some(Syscall::Symlinkat),
        SYS_MOUNT => Some(Syscall::Mount),
        SYS_UMOUNT2 => Some(Syscall::Umount2),
        SYS_STATFS => Some(Syscall::Statfs),
        SYS_FACCESSAT => Some(Syscall::Faccessat),
        SYS_CHDIR => Some(Syscall::Chdir),
        SYS_FCHMODAT => Some(Syscall::Fchmodat),
        SYS_FCHOWNAT => Some(Syscall::Fchownat),
        SYS_OPENAT => Some(Syscall::Openat),
        SYS_CLOSE => Some(Syscall::Close),
        SYS_PIPE2 => Some(Syscall::Pipe2),
        SYS_GETDENTS64 => Some(Syscall::Getdents64),
        SYS_LSEEK => Some(Syscall::Lseek),
        SYS_FTRUNCATE => Some(Syscall::Ftruncate),
        SYS_READ => Some(Syscall::Read),
        SYS_WRITE => Some(Syscall::Write),
        SYS_READV => Some(Syscall::Readv),
        SYS_WRITEV => Some(Syscall::Writev),
        SYS_PREAD64 => Some(Syscall::Pread64),
        SYS_PWRITE64 => Some(Syscall::Pwrite64),
        SYS_PREADV => Some(Syscall::Preadv),
        SYS_PWRITEV => Some(Syscall::Pwritev),
        SYS_SENDFILE => Some(Syscall::Sendfile),
        SYS_PSELECT6 => Some(Syscall::Pselect6),
        SYS_PPOLL => Some(Syscall::Ppoll),
        SYS_READLINKAT => Some(Syscall::Readlinkat),
        SYS_FSTATAT => Some(Syscall::Newfstatat),
        SYS_FSTAT => Some(Syscall::Fstat),
        SYS_SYNC => Some(Syscall::Sync),
        SYS_FSYNC => Some(Syscall::Fsync),
        SYS_FDATASYNC => Some(Syscall::Fdatasync),
        SYS_UTIMENSAT => Some(Syscall::Utimensat),
        SYS_EXIT => Some(Syscall::Exit),
        SYS_EXIT_GROUP => Some(Syscall::ExitGroup),
        SYS_SET_TID_ADDRESS => Some(Syscall::SetTidAddress),
        SYS_FUTEX => Some(Syscall::Futex),
        SYS_SET_ROBUST_LIST => Some(Syscall::SetRobustList),
        SYS_GET_ROBUST_LIST => Some(Syscall::GetRobustList),
        SYS_NANOSLEEP => Some(Syscall::Nanosleep),
        SYS_GETITIMER => Some(Syscall::Getitimmer),
        SYS_SETITIMER => Some(Syscall::Setitimmer),
        SYS_CLOCK_SETTIME => Some(Syscall::ClockSettime),
        SYS_CLOCK_GETTIME => Some(Syscall::ClockGettime),
        SYS_CLOCK_GETRES => Some(Syscall::ClockGetres),
        SYS_SYSLOG => Some(Syscall::Syslog),
        SYS_SCHED_YIELD => Some(Syscall::SchedYield),
        SYS_KILL => Some(Syscall::Kill),
        SYS_TKILL => Some(Syscall::Tkill),
        SYS_TGKILL => Some(Syscall::Tgkill),
        SYS_SIGALTSTACK => Some(Syscall::Sigaltstack),
        SYS_RT_SIGSUSPEND => Some(Syscall::RtSigsuspend),
        SYS_RT_SIGACTION => Some(Syscall::RtSigaction),
        SYS_RT_SIGPROCMASK => Some(Syscall::RtSigprocmask),
        SYS_RT_SIGPENDING => Some(Syscall::RtSigpending),
        SYS_RT_SIGTIMEDWAIT => Some(Syscall::RtSigtimedwait),
        SYS_RT_SIGRETURN => Some(Syscall::RtSigreturn),
        SYS_REBOOT => Some(Syscall::Reboot),
        SYS_SETGID => Some(Syscall::Setgid),
        SYS_SETUID => Some(Syscall::Setuid),
        SYS_SETRESUID => Some(Syscall::Setresuid),
        SYS_GETRESUID => Some(Syscall::Getresuid),
        SYS_SETRESGID => Some(Syscall::Setresgid),
        SYS_GETRESGID => Some(Syscall::Getresgid),
        SYS_TIMES => Some(Syscall::Times),
        SYS_SETPGID => Some(Syscall::Setpgid),
        SYS_SETSID => Some(Syscall::Setsid),
        SYS_UNAME => Some(Syscall::Uname),
        SYS_SETHOSTNAME => Some(Syscall::Sethostname),
        SYS_GETRLIMIT => Some(Syscall::Getrlimit),
        SYS_SETRLIMIT => Some(Syscall::Setrlimit),
        SYS_UMASK => Some(Syscall::Umask),
        SYS_GETTIMEOFDAY => Some(Syscall::Gettimeofday),
        SYS_GETPID => Some(Syscall::Getpid),
        SYS_GETPPID => Some(Syscall::Getppid),
        SYS_GETPGID => Some(Syscall::Getpgid),
        SYS_GETUID => Some(Syscall::Getuid),
        SYS_GETEUID => Some(Syscall::Geteuid),
        SYS_GETGID => Some(Syscall::Getgid),
        SYS_GETEGID => Some(Syscall::Getegid),
        SYS_GETTID => Some(Syscall::Gettid),
        SYS_SYSINFO => Some(Syscall::Sysinfo),
        SYS_SOCKET => Some(Syscall::Socket),
        SYS_SOCKETPAIR => Some(Syscall::Socketpair),
        SYS_BIND => Some(Syscall::Bind),
        SYS_LISTEN => Some(Syscall::Listen),
        SYS_ACCEPT => Some(Syscall::Accept),
        SYS_CONNECT => Some(Syscall::Connect),
        SYS_GETSOCKNAME => Some(Syscall::Getsockname),
        SYS_GETPEERNAME => Some(Syscall::Getpeername),
        SYS_SENDTO => Some(Syscall::Sendto),
        SYS_RECVFROM => Some(Syscall::Recvfrom),
        SYS_SETSOCKOPT => Some(Syscall::Setsockopt),
        SYS_GETSOCKOPT => Some(Syscall::Getsockopt),
        SYS_SHUTDOWN => Some(Syscall::Shutdown),
        SYS_CLONE => Some(Syscall::Clone),
        SYS_EXECVE => Some(Syscall::Execve),
        SYS_ACCEPT4 => Some(Syscall::Accept4),
        SYS_WAIT4 => Some(Syscall::Wait4),
        SYS_PRLIMIT64 => Some(Syscall::Prlimit),
        SYS_BRK => Some(Syscall::Brk),
        SYS_MUNMAP => Some(Syscall::Munmap),
        SYS_MMAP => Some(Syscall::Mmap),
        SYS_MPROTECT => Some(Syscall::Mprotect),
        SYS_SYNCFS => Some(Syscall::Syncfs),
        SYS_RENAMEAT2 => Some(Syscall::Renameat2),
        SYS_GETRANDOM => Some(Syscall::Getrandom),
        SYS_STATX => Some(Syscall::Statx),
        _ => None,
    }
}

/// Access to the registers of a system call: its number, its six
/// arguments and the return value.
pub trait SyscallFrame {
    spec fn spec_id(&self) -> usize;
    spec fn spec_ret(&self) -> usize;

    fn syscall_id(&self) -> (r: usize)
        ensures
            r == self.spec_id();
    fn arg0(&self) -> usize;
    fn arg1(&self) -> usize;
    fn arg2(&self) -> usize;
    fn arg3(&self) -> usize;
    fn arg4(&self) -> usize;
    fn arg5(&self) -> usize;
    fn set_ret(&mut self, val: usize)
        ensures
            final(self).spec_ret() == val,
            final(self).spec_id() == old(self).spec_id();
}

/// The saved user registers of a RISC-V trap: `a0`-`a7`.
#[derive(Clone, Copy, Debug, PartialEq, Eq, Structural)]
pub struct UserRegs {
    pub a0: usize,
    pub a1: usize,
    pub a2: usize,
    pub a3: usize,
    pub a4: usize,
    pub a5: usize,
    pub a6: usize,
    pub a7: usize,
}

impl SyscallFrame for UserRegs {
    open spec fn spec_id(&self) -> usize {
        self.a7
    }

    open spec fn spec_ret(&self) -> usize {
        self.a0
    }

    fn syscall_id(&self) -> (r: usize) {
        self.a7
    }

    fn arg0(&self) -> usize {
        self.a0
    }

    fn arg1(&self) -> usize {
        self.a1
    }

    fn arg2(&self) -> usize {
        self.a2
    }

    fn arg3(&self) -> usize {
        self.a3
    }

    fn arg4(&self) -> usize {
        self.a4
    }

    fn arg5(&self) -> usize {
        self.a5
    }

    fn set_ret(&mut self, val: usize) {
        self.a0 = val;
    }
}

/// `-ENOSYS` as a register value.
pub open spec fn enosys_ret() -> usize {
    (-(ENOSYS as int)) as usize
}

/// Chooses the handler for the system call in `frame`; for a number the
/// kernel does not handle, sets the return value to `-ENOSYS` and gives
/// `None`. The caller runs the chosen handler.
pub fn dispatch_syscall<F: SyscallFrame>(frame: &mut F) -> (r: Option<Syscall>)
    ensures
        r == syscall_of(old(frame).spec_id()),
        r is None ==> final(frame).spec_ret() == enosys_ret(),
        r is Some ==> *final(frame) == *old(frame),
{
    let id = frame.syscall_id();
    let r = decode_syscall(id);
    if r.is_none() {
        frame.set_ret((-(ENOSYS as isize)) as usize);
    }
    r
}

} // verus!
