# comix_kernel

A verified model of the core of the Comix kernel, written in Verus.

- `src/` is the library. It holds the task table, the run queues and wait
  queues, per-CPU state, the file tree and descriptor tables, the ELF loader,
  futexes, shared memory, the kernel log, and the system calls on top of them.
  Every executable function states what it returns and changes, and Verus
  proves it.
- Work the library cannot do itself comes in as arguments, and decisions come
  back as plain values. This covers copying to and from user memory, the
  memory manager's answers, the network stack and the clock.
- `tests/` exercises the library through its public interface.
- `app/` is a small host program that boots the model and makes a few calls.
