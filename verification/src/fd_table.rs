//! File descriptor tables.

use vstd::prelude::*;
use crate::errno::FsError;

verus! {

/// The most descriptors a table may hold (`RLIMIT_NOFILE`).
pub const MAX_FDS: usize = 1024;
/// The close-on-exec descriptor flag, as `F_GETFD` reports it.
pub const FD_CLOEXEC: u32 = 1;

/// One open descriptor: the open file it refers to, by id, and its flag.
#[derive(Clone, Copy, Debug, PartialEq, Eq, Structural)]
pub struct FdEntry {
    pub file: u64,
    pub cloexec: bool,
}

/// Slot `i` is free in `s`.
pub open spec fn is_free(s: Seq<Option<FdEntry>>, i: int) -> bool {
    i >= s.len() || s[i] is None
}

/// `fd` is the lowest free slot at or above `min`.
pub open spec fn lowest_free(s: Seq<Option<FdEntry>>, min: int, fd: int) -> bool {
    &&& min <= fd
    &&& is_free(s, fd)
    &&& forall|j: int| min <= j < fd ==> !is_free(s, j)
}

/// The entry of `fd` in `s`.
pub open spec fn entry(s: Seq<Option<FdEntry>>, fd: int) -> Option<FdEntry> {
    if 0 <= fd < s.len() { s[fd] } else { None }
}

/// `s` with slot `fd` set to `e`, growing it with free slots as needed.
pub open spec fn with_entry(s: Seq<Option<FdEntry>>, fd: int, e: Option<FdEntry>) -> Seq<Option<FdEntry>> {
    if fd < s.len() {
        s.update(fd, e)
    } else {
        s + Seq::new((fd - s.len()) as nat, |i: int| None::<FdEntry>) + seq![e]
    }
}

/// Two tables agree on every descriptor.
pub open spec fn same_entries(a: Seq<Option<FdEntry>>, b: Seq<Option<FdEntry>>) -> bool {
    forall|fd: int| 0 <= fd ==> #[trigger] entry(a, fd) == entry(b, fd)
}

/// The descriptors of one process.
#[derive(Debug)]
pub struct FdTable {
    entries: Vec<Option<FdEntry>>,
}

impl FdTable {
    pub closed spec fn view(&self) -> Seq<Option<FdEntry>> {
        self.entries@
    }

    pub closed spec fn wf(&self) -> bool {
        self.entries@.len() <= MAX_FDS
    }

    /// A copy of the table, as a new process gets it.
    pub fn clone_table(&self) -> (t: Self)
        requires
            self.wf(),
        ensures
            t.wf(),
            t@ == self@,
    {
        FdTable { entries: self.entries.clone() }
    }

    /// An empty table.
    pub fn new() -> (t: Self)
        ensures
            t.wf(),
            forall|fd: int| #[trigger] entry(t@, fd) is None,
    {
        FdTable { entries: Vec::new() }
    }

    /// The entry of `fd`, or `BadFileDescriptor`.
    pub fn get(&self, fd: usize) -> (r: Result<FdEntry, FsError>)
        ensures
            match entry(self@, fd as int) {
                Some(e) => r == Ok::<FdEntry, FsError>(e),
                None => r == Err::<FdEntry, FsError>(FsError::BadFileDescriptor),
            },
    {
        if fd < self.entries.len() {
            match self.entries[fd] {
                Some(e) => Ok(e),
                None => Err(FsError::BadFileDescriptor),
            }
        } else {
            Err(FsError::BadFileDescriptor)
        }
    }

    /// The lowest free slot at or above `min`.
    fn find_free_from(&self, min: usize) -> (fd: usize)
        requires
            self.wf(),
        ensures
            min <= self@.len() ==> fd <= self@.len(),
            min > self@.len() ==> fd == min,
            lowest_free(self@, min as int, fd as int),
    {
        let mut i = min;
        while i < self.entries.len()
            invariant
                min <= i,
                self.wf(),
                min <= self@.len() ==> i <= self@.len(),
                min > self@.len() ==> i == min,
                forall|j: int| min <= j < i ==> !is_free(self@, j),
            decreases self@.len() - i,
        {
            if self.entries[i].is_none() {
                return i;
            }
            i = i + 1;
        }
        i
    }

    /// Puts `e` in slot `fd`.
    fn set_slot(&mut self, fd: usize, e: Option<FdEntry>)
        requires
            old(self).wf(),
            fd < MAX_FDS,
        ensures
            final(self).wf(),
            final(self)@ == with_entry(old(self)@, fd as int, e),
    {
        if fd < self.entries.len() {
            self.entries.set(fd, e);
        } else {
            let ghost s0 = self.entries@;
            while self.entries.len() < fd
                invariant
                    s0.len() <= self.entries@.len() <= fd,
                    self.entries@ == s0 + Seq::new((self.entries@.len() - s0.len()) as nat, |i: int| None::<FdEntry>),
                decreases fd - self.entries@.len(),
            {
                let ghost before = self.entries@;
                self.entries.push(None);
                proof {
                    assert(self.entries@ =~= s0 + Seq::new((self.entries@.len() - s0.len()) as nat, |i: int| None::<FdEntry>));
                }
            }
            self.entries.push(e);
            proof {
                assert(self.entries@ =~= with_entry(s0, fd as int, e));
            }
        }
    }

    /// Installs `file` in the lowest free slot at or above `min`;
    /// `TooManyOpenFiles` when that slot is beyond the limit.
    pub fn alloc_from(&mut self, file: u64, min: usize, cloexec: bool) -> (r: Result<usize, FsError>)
        requires
            old(self).wf(),
        ensures
            final(self).wf(),
            match r {
                Ok(fd) => lowest_free(old(self)@, min as int, fd as int) && fd < MAX_FDS
                    && final(self)@ == with_entry(old(self)@, fd as int, Some(FdEntry { file, cloexec })),
                Err(e) => e == FsError::TooManyOpenFiles && final(self)@ == old(self)@
                    && forall|fd: int| lowest_free(old(self)@, min as int, fd) ==> fd >= MAX_FDS,
            },
    {
        let fd = self.find_free_from(min);
        proof {
            assert forall|f: int| lowest_free(old(self)@, min as int, f) implies f >= MAX_FDS || f == fd by {
                if f < fd {
                    assert(!is_free(self@, f));
                } else if f > fd {
                    assert(!is_free(self@, fd as int));
                }
            }
        }
        if fd >= MAX_FDS {
            return Err(FsError::TooManyOpenFiles);
        }
        self.set_slot(fd, Some(FdEntry { file, cloexec }));
        Ok(fd)
    }

    /// Installs `file` in the lowest free slot.
    pub fn alloc_fd(&mut self, file: u64) -> (r: Result<usize, FsError>)
        requires
            old(self).wf(),
        ensures
            final(self).wf(),
            match r {
                Ok(fd) => lowest_free(old(self)@, 0, fd as int) && fd < MAX_FDS
                    && final(self)@ == with_entry(old(self)@, fd as int, Some(FdEntry { file, cloexec: false })),
                Err(e) => e == FsError::TooManyOpenFiles && final(self)@ == old(self)@
                    && forall|fd: int| lowest_free(old(self)@, 0, fd) ==> fd >= MAX_FDS,
            },
    {
        self.alloc_from(file, 0, false)
    }

    /// Installs `file` in the lowest free slot with the given flag.
    pub fn alloc_with_flags(&mut self, file: u64, cloexec: bool) -> (r: Result<usize, FsError>)
        requires
            old(self).wf(),
        ensures
            final(self).wf(),
            match r {
                Ok(fd) => lowest_free(old(self)@, 0, fd as int) && fd < MAX_FDS
                    && final(self)@ == with_entry(old(self)@, fd as int, Some(FdEntry { file, cloexec })),
                Err(e) => e == FsError::TooManyOpenFiles && final(self)@ == old(self)@
                    && forall|fd: int| lowest_free(old(self)@, 0, fd) ==> fd >= MAX_FDS,
            },
    {
        self.alloc_from(file, 0, cloexec)
    }

    /// Installs `file` at descriptor `fd`, replacing what was there.
    pub fn install_at(&mut self, fd: usize, file: u64) -> (r: Result<(), FsError>)
        requires
            old(self).wf(),
        ensures
            final(self).wf(),
            fd < MAX_FDS ==> r is Ok && final(self)@ == with_entry(old(self)@, fd as int, Some(FdEntry { file, cloexec: false })),
            fd >= MAX_FDS ==> r == Err::<(), FsError>(FsError::BadFileDescriptor) && final(self)@ == old(self)@,
    {
        if fd >= MAX_FDS {
            return Err(FsError::BadFileDescriptor);
        }
        self.set_slot(fd, Some(FdEntry { file, cloexec: false }));
        Ok(())
    }

    /// Closes `fd`; `BadFileDescriptor` when it is not open.
    pub fn close(&mut self, fd: usize) -> (r: Result<FdEntry, FsError>)
        requires
            old(self).wf(),
        ensures
            final(self).wf(),
            match entry(old(self)@, fd as int) {
                Some(e) => r == Ok::<FdEntry, FsError>(e) && final(self)@ == old(self)@.update(fd as int, None),
                None => r == Err::<FdEntry, FsError>(FsError::BadFileDescriptor) && final(self)@ == old(self)@,
            },
    {
        if fd < self.entries.len() {
            match self.entries[fd] {
                Some(e) => {
                    self.entries.set(fd, None);
                    Ok(e)
                },
                None => Err(FsError::BadFileDescriptor),
            }
        } else {
            Err(FsError::BadFileDescriptor)
        }
    }

    /// Duplicates `old_fd` into the lowest free slot at or above `min`, with
    /// the given close-on-exec flag.
    pub fn dup_from(&mut self, old_fd: usize, min: usize, cloexec: bool) -> (r: Result<usize, FsError>)
        requires
            old(self).wf(),
        ensures
            final(self).wf(),
            match entry(old(self)@, old_fd as int) {
                None => r == Err::<usize, FsError>(FsError::BadFileDescriptor) && final(self)@ == old(self)@,
                Some(e) => match r {
                    Ok(fd) => lowest_free(old(self)@, min as int, fd as int) && fd < MAX_FDS
                        && final(self)@ == with_entry(old(self)@, fd as int, Some(FdEntry { file: e.file, cloexec })),
                    Err(er) => er == FsError::TooManyOpenFiles && final(self)@ == old(self)@
                        && forall|fd: int| lowest_free(old(self)@, min as int, fd) ==> fd >= MAX_FDS,
                },
            },
    {
        let e = match self.get(old_fd) {
            Ok(e) => e,
            Err(er) => return Err(er),
        };
        self.alloc_from(e.file, min, cloexec)
    }

    /// Duplicates `old_fd` into the lowest free slot.
    pub fn dup(&mut self, old_fd: usize) -> (r: Result<usize, FsError>)
        requires
            old(self).wf(),
        ensures
            final(self).wf(),
            match entry(old(self)@, old_fd as int) {
                None => r == Err::<usize, FsError>(FsError::BadFileDescriptor) && final(self)@ == old(self)@,
                Some(e) => match r {
                    Ok(fd) => lowest_free(old(self)@, 0, fd as int) && fd < MAX_FDS
                        && final(self)@ == with_entry(old(self)@, fd as int, Some(FdEntry { file: e.file, cloexec: false })),
                    Err(er) => er == FsError::TooManyOpenFiles && final(self)@ == old(self)@
                        && forall|fd: int| lowest_free(old(self)@, 0, fd) ==> fd >= MAX_FDS,
                },
            },
    {
        self.dup_from(old_fd, 0, false)
    }

    /// Makes `new_fd` refer to the file of `old_fd`, closing what `new_fd`
    /// held. `InvalidArgument` when the two are equal, `BadFileDescriptor`
    /// when `old_fd` is not open or `new_fd` is out of range.
    pub fn dup3(&mut self, old_fd: usize, new_fd: usize, cloexec: bool) -> (r: Result<usize, FsError>)
        requires
            old(self).wf(),
        ensures
            final(self).wf(),
            match entry(old(self)@, old_fd as int) {
                None => r == Err::<usize, FsError>(FsError::BadFileDescriptor) && final(self)@ == old(self)@,
                Some(e) => if old_fd == new_fd {
                    r == Err::<usize, FsError>(FsError::InvalidArgument) && final(self)@ == old(self)@
                } else if new_fd >= MAX_FDS {
                    r == Err::<usize, FsError>(FsError::BadFileDescriptor) && final(self)@ == old(self)@
                } else {
                    r == Ok::<usize, FsError>(new_fd)
                        && final(self)@ == with_entry(old(self)@, new_fd as int, Some(FdEntry { file: e.file, cloexec }))
                },
            },
    {
        let e = match self.get(old_fd) {
            Ok(e) => e,
            Err(er) => return Err(er),
        };
        if old_fd == new_fd {
            return Err(FsError::InvalidArgument);
        }
        if new_fd >= MAX_FDS {
            return Err(FsError::BadFileDescriptor);
        }
        self.set_slot(new_fd, Some(FdEntry { file: e.file, cloexec }));
        Ok(new_fd)
    }

    /// The descriptor flags of `fd`: `FD_CLOEXEC` or 0.
    pub fn get_fd_flags(&self, fd: usize) -> (r: Result<u32, FsError>)
        ensures
            match entry(self@, fd as int) {
                Some(e) => r == Ok::<u32, FsError>(if e.cloexec { FD_CLOEXEC } else { 0 }),
                None => r == Err::<u32, FsError>(FsError::BadFileDescriptor),
            },
    {
        match self.get(fd) {
            Ok(e) => Ok(if e.cloexec { FD_CLOEXEC } else { 0 }),
            Err(er) => Err(er),
        }
    }

    /// Sets the close-on-exec flag of `fd`.
    pub fn set_fd_flags(&mut self, fd: usize, cloexec: bool) -> (r: Result<(), FsError>)
        requires
            old(self).wf(),
        ensures
            final(self).wf(),
            match entry(old(self)@, fd as int) {
                Some(e) => r is Ok && final(self)@ == old(self)@.update(fd as int, Some(FdEntry { file: e.file, cloexec })),
                None => r == Err::<(), FsError>(FsError::BadFileDescriptor) && final(self)@ == old(self)@,
            },
    {
        let e = match self.get(fd) {
            Ok(e) => e,
            Err(er) => return Err(er),
        };
        self.entries.set(fd, Some(FdEntry { file: e.file, cloexec }));
        Ok(())
    }

    /// Closes every descriptor marked close-on-exec.
    pub fn close_exec(&mut self)
        requires
            old(self).wf(),
        ensures
            final(self).wf(),
            final(self)@.len() == old(self)@.len(),
            forall|fd: int| 0 <= fd < old(self)@.len() ==> #[trigger] final(self)@[fd] == match old(self)@[fd] {
                Some(e) => if e.cloexec { None } else { Some(e) },
                None => None,
            },
    {
        let mut i: usize = 0;
        while i < self.entries.len()
            invariant
                i <= self@.len(),
                self@.len() == old(self)@.len(),
                self.wf(),
                forall|fd: int| 0 <= fd < i ==> #[trigger] self@[fd] == match old(self)@[fd] {
                    Some(e) => if e.cloexec { None } else { Some(e) },
                    None => None,
                },
                forall|fd: int| i <= fd < self@.len() ==> #[trigger] self@[fd] == old(self)@[fd],
            decreases self@.len() - i,
        {
            if let Some(e) = self.entries[i] {
                if e.cloexec {
                    self.entries.set(i, None);
                }
            }
            i = i + 1;
        }
    }

    /// Empties the table and returns what it held, lowest descriptor first.
    pub fn take_all(&mut self) -> (v: Vec<(usize, u64)>)
        requires
            old(self).wf(),
        ensures
            final(self).wf(),
            forall|fd: int| #[trigger] entry(final(self)@, fd) is None,
            forall|i: int| 0 <= i < v@.len() ==> entry(old(self)@, v@[i].0 as int) == Some(
                FdEntry { file: v@[i].1, cloexec: entry(old(self)@, v@[i].0 as int)->0.cloexec }),
            forall|fd: int| 0 <= fd ==> (#[trigger] entry(old(self)@, fd) is Some <==> exists|i: int| 0 <= i < v@.len() && v@[i].0 == fd),
    {
        let mut v: Vec<(usize, u64)> = Vec::new();
        let mut i: usize = 0;
        while i < self.entries.len()
            invariant
                i <= self@.len(),
                self@ == old(self)@,
                forall|j: int| 0 <= j < v@.len() ==> entry(old(self)@, v@[j].0 as int) == Some(
                    FdEntry { file: v@[j].1, cloexec: entry(old(self)@, v@[j].0 as int)->0.cloexec }),
                forall|j: int| 0 <= j < v@.len() ==> v@[j].0 < i,
                forall|fd: int| 0 <= fd < i ==> (#[trigger] entry(old(self)@, fd) is Some <==> exists|j: int| 0 <= j < v@.len() && v@[j].0 == fd),
            decreases self@.len() - i,
        {
            if let Some(e) = self.entries[i] {
                let ghost before = v@;
                v.push((i, e.file));
                proof {
                    assert(v@[before.len() as int].0 == i);
                    assert forall|fd: int| 0 <= fd < i + 1 implies (#[trigger] entry(old(self)@, fd) is Some <==> exists|j: int| 0 <= j < v@.len() && v@[j].0 == fd) by {
                        if fd < i {
                            if exists|j: int| 0 <= j < before.len() && before[j].0 == fd {
                                let j = choose|j: int| 0 <= j < before.len() && before[j].0 == fd;
                                assert(v@[j].0 == fd);
                            }
                            if exists|j: int| 0 <= j < v@.len() && v@[j].0 == fd {
                                let j = choose|j: int| 0 <= j < v@.len() && v@[j].0 == fd;
                                assert(j < before.len());
                                assert(before[j].0 == fd);
                            }
                        }
                    }
                }
            } else {
                proof {
                    assert forall|fd: int| 0 <= fd < i + 1 implies (#[trigger] entry(old(self)@, fd) is Some <==> exists|j: int| 0 <= j < v@.len() && v@[j].0 == fd) by {
                        if fd == i {
                            if exists|j: int| 0 <= j < v@.len() && v@[j].0 == fd {
                                let j = choose|j: int| 0 <= j < v@.len() && v@[j].0 == fd;
                                assert(v@[j].0 < i);
                            }
                        }
                    }
                }
            }
            i = i + 1;
        }
        self.entries = Vec::new();
        proof {
            assert forall|fd: int| 0 <= fd implies (#[trigger] entry(old(self)@, fd) is Some <==> exists|j: int| 0 <= j < v@.len() && v@[j].0 == fd) by {
                if fd >= i {
                    if exists|j: int| 0 <= j < v@.len() && v@[j].0 == fd {
                        let j = choose|j: int| 0 <= j < v@.len() && v@[j].0 == fd;
                        assert(v@[j].0 < i);
                    }
                }
            }
        }
        v
    }
}

/// A table agrees with itself.
pub proof fn lemma_same_entries_refl(t: Seq<Option<FdEntry>>)
    ensures
        same_entries(t, t),
{
}

/// Filling a free slot and freeing it again leaves the descriptors as they were.
pub proof fn lemma_close_after_alloc(t: Seq<Option<FdEntry>>, fd: int, e: FdEntry, after: Seq<Option<FdEntry>>)
    requires
        0 <= fd,
        is_free(t, fd),
        after == with_entry(t, fd, Some(e)).update(fd, None),
    ensures
        same_entries(after, t),
{
    assert forall|x: int| 0 <= x implies #[trigger] entry(after, x) == entry(t, x) by {
        if x < t.len() {
        } else {
        }
    }
}

/// Setting one slot changes only that descriptor.
pub proof fn lemma_with_entry(s: Seq<Option<FdEntry>>, fd: int, e: Option<FdEntry>)
    requires
        0 <= fd,
    ensures
        entry(with_entry(s, fd, e), fd) == e,
        forall|x: int| 0 <= x && x != fd ==> #[trigger] entry(with_entry(s, fd, e), x) == entry(s, x),
{
}

} // verus!
