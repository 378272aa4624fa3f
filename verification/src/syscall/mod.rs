//! The system call layer: argument checks and effects on the kernel model.

pub mod cred;
pub mod process;
pub mod sched;
pub mod path;
pub mod fs;
pub mod mount;
pub mod fcntl;
pub mod ioctl;
pub mod exec;
pub mod futex;
pub mod exit;
pub mod clone;
pub mod wait;
pub mod net;
pub mod sockopt;
pub mod ifaddrs;
pub mod signal;
pub mod io;
pub mod dirent;
pub mod time;
pub mod mm;
pub mod rlimit;
pub mod sys;
pub mod dispatch;
