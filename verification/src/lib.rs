//! A verified model of the Comix kernel core: capabilities and credentials,
//! the task table, run queues and wait queues, per-CPU state, the file
//! descriptor table, the ELF loader front end and the system call layer.

pub mod errno;
pub mod cap;
pub mod fd_table;
pub mod cred;
pub mod task;
pub mod task_info;
pub mod task_queue;
pub mod cpu;
pub mod scheduler;
pub mod kernel;
pub mod wait_queue;
pub mod vfs;
pub mod file;
pub mod exec_loader;
pub mod reloc;
pub mod futex;
pub mod shm;
pub mod process;
pub mod syslog;
pub mod net;
pub mod boot;
pub mod syscall;
