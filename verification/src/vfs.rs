//! The virtual file system: inodes, directory entries and path lookup.
//!
//! Inodes are numbered by their place in the inode table and are never
//! reused. A directory's contents are the entries whose `parent` is that
//! directory; the pair (parent, name) identifies at most one entry.

use vstd::prelude::*;
use crate::errno::FsError;

verus! {

/// The longest name one directory entry may have.
pub const NAME_MAX: usize = 255;
/// The inode number of the root directory.
pub const ROOT_INO: u64 = 0;

/// The kind of object an inode describes.
#[derive(Clone, Copy, Debug, PartialEq, Eq, Structural)]
pub enum InodeType {
    File,
    Directory,
    Symlink,
    CharDevice,
    BlockDevice,
    Fifo,
    Socket,
}

/// What an inode records (the target of a symbolic link is kept apart).
#[derive(Clone, Copy, Debug, PartialEq, Eq, Structural)]
pub struct Inode {
    pub itype: InodeType,
    /// Permission bits (the low twelve bits of `st_mode`).
    pub mode: u32,
    pub uid: u32,
    pub gid: u32,
    pub size: u64,
    /// Device number, for device nodes.
    pub rdev: u64,
    /// The directory this one sits in (itself for the root), for `..`.
    pub parent: u64,
}

/// One name in one directory.
#[derive(Debug)]
pub struct DirEntry {
    pub parent: u64,
    pub name: Vec<u8>,
    pub ino: u64,
}

/// Entry `i` of `s` names `name` in `dir`.
pub open spec fn has_entry(s: Seq<DirEntry>, dir: u64, name: Seq<u8>, i: int) -> bool {
    0 <= i < s.len() && s[i].parent == dir && s[i].name@ == name
}

/// No two entries of `s` share a directory and a name.
pub open spec fn unique_entries(s: Seq<DirEntry>) -> bool {
    forall|i: int, j: int|
        0 <= i < s.len() && 0 <= j < s.len() && #[trigger] s[i].parent == #[trigger] s[j].parent
            && s[i].name@ == s[j].name@ ==> i == j
}

/// The directory relation of `s`: (directory, name) to inode.
pub open spec fn entry_map(s: Seq<DirEntry>) -> Map<(u64, Seq<u8>), u64> {
    Map::new(
        |k: (u64, Seq<u8>)| exists|i: int| #[trigger] has_entry(s, k.0, k.1, i),
        |k: (u64, Seq<u8>)| s[choose|i: int| #[trigger] has_entry(s, k.0, k.1, i)].ino,
    )
}

/// Under uniqueness, the entry found at `i` is the one the map reports.
pub proof fn lemma_entry_map_at(s: Seq<DirEntry>, i: int)
    requires
        unique_entries(s),
        0 <= i < s.len(),
    ensures
        entry_map(s).contains_key((s[i].parent, s[i].name@)),
        entry_map(s)[(s[i].parent, s[i].name@)] == s[i].ino,
{
    let k = (s[i].parent, s[i].name@);
    assert(has_entry(s, k.0, k.1, i));
    let j = choose|j: int| has_entry(s, k.0, k.1, j);
    assert(s[j].parent == s[i].parent && s[j].name@ == s[i].name@);
}

/// The positions in `s`, among the first `n`, of the entries of `dir`, in order.
pub open spec fn dir_indices(s: Seq<DirEntry>, dir: u64, n: int) -> Seq<int>
    decreases n,
{
    if n <= 0 || n > s.len() {
        Seq::empty()
    } else if s[n - 1].parent == dir {
        dir_indices(s, dir, n - 1).push(n - 1)
    } else {
        dir_indices(s, dir, n - 1)
    }
}

proof fn lemma_dir_indices(s: Seq<DirEntry>, dir: u64, n: int)
    requires
        0 <= n <= s.len(),
    ensures
        forall|i: int| 0 <= i < dir_indices(s, dir, n).len() ==>
            0 <= #[trigger] dir_indices(s, dir, n)[i] < n && s[dir_indices(s, dir, n)[i]].parent == dir,
        forall|j: int| 0 <= j < n && #[trigger] s[j].parent == dir ==>
            exists|i: int| 0 <= i < dir_indices(s, dir, n).len() && #[trigger] dir_indices(s, dir, n)[i] == j,
    decreases n,
{
    if n > 0 {
        lemma_dir_indices(s, dir, n - 1);
        let d0 = dir_indices(s, dir, n - 1);
        let d = dir_indices(s, dir, n);
        if s[n - 1].parent == dir {
            assert(d == d0.push(n - 1));
            assert forall|j: int| 0 <= j < n && #[trigger] s[j].parent == dir implies
                exists|i: int| 0 <= i < d.len() && #[trigger] d[i] == j by {
                if j < n - 1 {
                    let i = choose|i: int| 0 <= i < d0.len() && #[trigger] d0[i] == j;
                    assert(d[i] == d0[i]);
                } else {
                    assert(d[d0.len() as int] == j);
                }
            }
        } else {
            assert(d == d0);
        }
    }
}

/// Appending an entry for a new (directory, name) adds exactly that pair.
pub proof fn lemma_entry_map_push(s: Seq<DirEntry>, e: DirEntry)
    requires
        unique_entries(s),
        !entry_map(s).contains_key((e.parent, e.name@)),
    ensures
        unique_entries(s.push(e)),
        entry_map(s.push(e)) == entry_map(s).insert((e.parent, e.name@), e.ino),
{
    let t = s.push(e);
    assert forall|i: int, j: int|
        0 <= i < t.len() && 0 <= j < t.len() && #[trigger] t[i].parent == #[trigger] t[j].parent
            && t[i].name@ == t[j].name@ implies i == j by {
        if i < s.len() && j < s.len() {
            assert(t[i] == s[i] && t[j] == s[j]);
        } else if i < s.len() && j == s.len() {
            assert(t[i] == s[i]);
            let k = (e.parent, e.name@);
            assert(has_entry(s, k.0, k.1, i));
        } else if j < s.len() && i == s.len() {
            assert(t[j] == s[j]);
            let k = (e.parent, e.name@);
            assert(has_entry(s, k.0, k.1, j));
        }
    }
    let m = entry_map(s).insert((e.parent, e.name@), e.ino);
    assert forall|k: (u64, Seq<u8>)| #[trigger] entry_map(t).contains_key(k) == m.contains_key(k) by {
        if entry_map(t).contains_key(k) {
            let i = choose|i: int| has_entry(t, k.0, k.1, i);
            if i < s.len() {
                assert(has_entry(s, k.0, k.1, i));
            }
        }
        if entry_map(s).contains_key(k) {
            let i = choose|i: int| has_entry(s, k.0, k.1, i);
            assert(has_entry(t, k.0, k.1, i));
        }
        if k == (e.parent, e.name@) {
            assert(has_entry(t, k.0, k.1, s.len() as int));
        }
    }
    assert forall|k: (u64, Seq<u8>)| #[trigger] entry_map(t).contains_key(k) implies entry_map(t)[k] == m[k] by {
        let i = choose|i: int| has_entry(t, k.0, k.1, i);
        lemma_entry_map_at(t, i);
        if i < s.len() {
            lemma_entry_map_at(s, i);
        }
    }
    assert(entry_map(t) =~= m);
}

/// Removing entry `i` removes exactly its (directory, name) pair.
pub proof fn lemma_entry_map_remove(s: Seq<DirEntry>, i: int)
    requires
        unique_entries(s),
        0 <= i < s.len(),
    ensures
        unique_entries(s.remove(i)),
        entry_map(s.remove(i)) == entry_map(s).remove((s[i].parent, s[i].name@)),
{
    let t = s.remove(i);
    let key = (s[i].parent, s[i].name@);
    assert forall|a: int, b: int|
        0 <= a < t.len() && 0 <= b < t.len() && #[trigger] t[a].parent == #[trigger] t[b].parent
            && t[a].name@ == t[b].name@ implies a == b by {
        let a2 = if a < i { a } else { a + 1 };
        let b2 = if b < i { b } else { b + 1 };
        assert(t[a] == s[a2] && t[b] == s[b2]);
    }
    let m = entry_map(s).remove(key);
    assert forall|k: (u64, Seq<u8>)| #[trigger] entry_map(t).contains_key(k) == m.contains_key(k) by {
        if entry_map(t).contains_key(k) {
            let a = choose|a: int| has_entry(t, k.0, k.1, a);
            let a2 = if a < i { a } else { a + 1 };
            assert(t[a] == s[a2]);
            assert(has_entry(s, k.0, k.1, a2));
            assert(a2 != i);
        }
        if m.contains_key(k) {
            let a = choose|a: int| has_entry(s, k.0, k.1, a);
            assert(a != i);
            let a1 = if a < i { a } else { a - 1 };
            assert(t[a1] == s[a]);
            assert(has_entry(t, k.0, k.1, a1));
        }
    }
    assert forall|k: (u64, Seq<u8>)| #[trigger] entry_map(t).contains_key(k) implies entry_map(t)[k] == m[k] by {
        let a = choose|a: int| has_entry(t, k.0, k.1, a);
        let a2 = if a < i { a } else { a + 1 };
        assert(t[a] == s[a2]);
        lemma_entry_map_at(t, a);
        lemma_entry_map_at(s, a2);
    }
    assert(entry_map(t) =~= m);
}

/// The tree as its contents: the inode table and the directory relation.
pub type TreeState = (Seq<Inode>, Map<(u64, Seq<u8>), u64>);

/// `n` is a directory of inode table `ins`.
pub open spec fn dir_in(ins: Seq<Inode>, n: u64) -> bool {
    n < ins.len() && ins[n as int].itype == InodeType::Directory
}

/// Directory `d` holds no entry of `dm`.
pub open spec fn empty_in(dm: Map<(u64, Seq<u8>), u64>, d: u64) -> bool {
    forall|k: (u64, Seq<u8>)| #[trigger] dm.contains_key(k) ==> k.0 != d
}

/// Why `on` in `od` cannot be renamed to `nn` in `nd`, if it cannot.
pub open spec fn rename_err(ins: Seq<Inode>, dm: Map<(u64, Seq<u8>), u64>, od: u64, on: Seq<u8>, nd: u64,
    nn: Seq<u8>) -> Option<FsError> {
    if !dir_in(ins, od) || !dir_in(ins, nd) {
        Some(FsError::NotDirectory)
    } else if on.len() > NAME_MAX || nn.len() > NAME_MAX {
        Some(FsError::NameTooLong)
    } else if !dm.contains_key((od, on)) {
        Some(FsError::NotFound)
    } else if (od, on) != (nd, nn) && dm.contains_key((nd, nn)) && dir_in(ins, dm[(nd, nn)])
        && !empty_in(dm, dm[(nd, nn)]) {
        Some(FsError::NotEmpty)
    } else {
        None
    }
}

/// The directory relation after a successful rename; a target entry is replaced.
pub open spec fn rename_dir(dm: Map<(u64, Seq<u8>), u64>, od: u64, on: Seq<u8>, nd: u64, nn: Seq<u8>)
    -> Map<(u64, Seq<u8>), u64> {
    if (od, on) == (nd, nn) { dm } else { dm.remove((od, on)).insert((nd, nn), dm[(od, on)]) }
}

/// The inode table after a successful rename: a moved directory's `..`
/// now leads to its new parent.
pub open spec fn rename_inodes(ins: Seq<Inode>, dm: Map<(u64, Seq<u8>), u64>, od: u64, on: Seq<u8>, nd: u64,
    nn: Seq<u8>) -> Seq<Inode> {
    let n = dm[(od, on)];
    if (od, on) != (nd, nn) && dir_in(ins, n) {
        ins.update(n as int, Inode { parent: nd, ..ins[n as int] })
    } else {
        ins
    }
}

/// One rename applied to a tree: its error, or the new tree.
pub open spec fn apply_rename(st: TreeState, od: u64, on: Seq<u8>, nd: u64, nn: Seq<u8>)
    -> (Option<FsError>, TreeState) {
    match rename_err(st.0, st.1, od, on, nd, nn) {
        Some(e) => (Some(e), st),
        None => (None, (rename_inodes(st.0, st.1, od, on, nd, nn), rename_dir(st.1, od, on, nd, nn))),
    }
}

/// The file system tree.
pub struct Vfs {
    inodes: Vec<Inode>,
    /// The bytes each inode holds, by inode number: a regular file's
    /// contents or a symbolic link's target.
    data: Vec<Vec<u8>>,
    entries: Vec<DirEntry>,
}

impl Vfs {
    /// The inode table, by inode number.
    pub closed spec fn inodes(&self) -> Seq<Inode> {
        self.inodes@
    }

    /// The bytes inode `ino` holds: a regular file's contents or a
    /// symbolic link's target.
    pub closed spec fn link(&self, ino: u64) -> Seq<u8> {
        self.data@[ino as int]@
    }

    /// The directory relation: (directory, name) to inode.
    pub closed spec fn dir(&self) -> Map<(u64, Seq<u8>), u64> {
        entry_map(self.entries@)
    }

    pub closed spec fn wf(&self) -> bool {
        &&& unique_entries(self.entries@)
        &&& self.inodes@.len() > 0
        &&& self.data@.len() == self.inodes@.len()
        &&& forall|i: int| 0 <= i < self.inodes@.len() && (#[trigger] self.inodes@[i]).itype == InodeType::File
                ==> self.data@[i]@.len() == self.inodes@[i].size
        &&& self.inodes@[ROOT_INO as int].itype == InodeType::Directory
        &&& self.inodes@.len() < u64::MAX
        &&& forall|i: int| 0 <= i < self.entries@.len() ==>
                (#[trigger] self.entries@[i]).ino < self.inodes@.len()
                && self.entries@[i].parent < self.inodes@.len()
        &&& forall|i: int| 0 <= i < self.inodes@.len() ==>
                (#[trigger] self.inodes@[i]).parent < self.inodes@.len()
    }

    /// `ino` names an inode.
    pub open spec fn valid(&self, ino: u64) -> bool {
        ino < self.inodes().len()
    }

    /// `ino` is a directory.
    pub open spec fn is_dir(&self, ino: u64) -> bool {
        self.valid(ino) && self.inodes()[ino as int].itype == InodeType::Directory
    }

    /// `ino` is a symbolic link.
    pub open spec fn is_symlink(&self, ino: u64) -> bool {
        self.valid(ino) && self.inodes()[ino as int].itype == InodeType::Symlink
    }

    /// The directory `dir` holds no entry.
    pub open spec fn is_empty_dir(&self, dir: u64) -> bool {
        empty_in(self.dir(), dir)
    }

    /// The tree's contents.
    pub open spec fn state(&self) -> TreeState {
        (self.inodes(), self.dir())
    }

    /// A tree holding only the root directory, with the given permissions.
    pub fn new(root_mode: u32) -> (v: Vfs)
        ensures
            v.wf(),
            v.inodes() == seq![Vfs::new_inode(InodeType::Directory, root_mode, 0, ROOT_INO)],
            v.link(ROOT_INO) == Seq::<u8>::empty(),
            v.dir() == Map::<(u64, Seq<u8>), u64>::empty(),
    {
        let root = Inode {
            itype: InodeType::Directory,
            mode: root_mode,
            uid: 0,
            gid: 0,
            size: 0,
            rdev: 0,
            parent: ROOT_INO,
        };
        let mut inodes = Vec::new();
        inodes.push(root);
        let mut data: Vec<Vec<u8>> = Vec::new();
        data.push(Vec::new());
        let v = Vfs { inodes, data, entries: Vec::new() };
        assert(v.inodes() =~= seq![Vfs::new_inode(InodeType::Directory, root_mode, 0, ROOT_INO)]);
        assert(v.dir() =~= Map::<(u64, Seq<u8>), u64>::empty());
        v
    }

    /// A fresh inode record.
    pub open spec fn new_inode(itype: InodeType, mode: u32, rdev: u64, parent: u64) -> Inode {
        Inode { itype, mode, uid: 0, gid: 0, size: 0, rdev, parent }
    }

    /// The root is a directory of every well-formed tree.
    pub proof fn lemma_root(&self)
        requires
            self.wf(),
        ensures
            self.is_dir(ROOT_INO),
    {
    }

    /// The record of inode `ino`.
    pub fn inode(&self, ino: u64) -> (r: Inode)
        requires
            self.valid(ino),
        ensures
            r == self.inodes()[ino as int],
    {
        let _n = self.inodes.len();
        self.inodes[ino as usize]
    }

    /// The type of inode `ino`.
    pub fn inode_type(&self, ino: u64) -> (r: InodeType)
        requires
            self.valid(ino),
        ensures
            r == self.inodes()[ino as int].itype,
    {
        let _n = self.inodes.len();
        self.inodes[ino as usize].itype
    }

    /// The number of inodes.
    pub fn inode_count(&self) -> (n: u64)
        requires
            self.wf(),
        ensures
            n == self.inodes().len(),
    {
        self.inodes.len() as u64
    }

    /// The entries of directory `dir`: names with their inodes, in the
    /// order they were made (`.` and `..` are not among them).
    pub closed spec fn listing(&self, dir: u64) -> Seq<(Seq<u8>, u64)> {
        dir_indices(self.entries@, dir, self.entries@.len() as int)
            .map_values(|j: int| (self.entries@[j].name@, self.entries@[j].ino))
    }

    /// The listing of `dir` holds exactly its names, each with the inode
    /// the name leads to.
    pub proof fn lemma_listing(&self, dir: u64)
        requires
            self.wf(),
        ensures
            forall|i: int| 0 <= i < self.listing(dir).len() ==>
                self.dir().contains_key((dir, #[trigger] self.listing(dir)[i].0))
                && self.dir()[(dir, self.listing(dir)[i].0)] == self.listing(dir)[i].1,
            forall|name: Seq<u8>| #[trigger] self.dir().contains_key((dir, name)) ==>
                exists|i: int| 0 <= i < self.listing(dir).len() && self.listing(dir)[i].0 == name,
            forall|i: int| 0 <= i < self.listing(dir).len() ==> self.valid(#[trigger] self.listing(dir)[i].1),
    {
        let s = self.entries@;
        let n = s.len() as int;
        lemma_dir_indices(s, dir, n);
        let d = dir_indices(s, dir, n);
        let l = self.listing(dir);
        assert forall|i: int| 0 <= i < l.len() implies
            self.dir().contains_key((dir, #[trigger] l[i].0)) && self.dir()[(dir, l[i].0)] == l[i].1 by {
            let j = d[i];
            lemma_entry_map_at(s, j);
        }
        assert forall|i: int| 0 <= i < l.len() implies self.valid(#[trigger] l[i].1) by {
            assert(0 <= d[i] < n);
        }
        assert forall|name: Seq<u8>| #[trigger] self.dir().contains_key((dir, name)) implies
            exists|i: int| 0 <= i < l.len() && l[i].0 == name by {
            let j = choose|j: int| #[trigger] has_entry(s, dir, name, j);
            assert(s[j].parent == dir);
            let i = choose|i: int| 0 <= i < d.len() && #[trigger] d[i] == j;
            assert(l[i].0 == name);
        }
    }

    /// The entries of directory `dir` (see `listing`).
    pub fn readdir(&self, dir: u64) -> (r: Vec<(Vec<u8>, u64)>)
        ensures
            r@.len() == self.listing(dir).len(),
            forall|i: int| 0 <= i < r@.len() ==> (#[trigger] r@[i]).0@ == self.listing(dir)[i].0
                && r@[i].1 == self.listing(dir)[i].1,
    {
        let mut out: Vec<(Vec<u8>, u64)> = Vec::new();
        let mut i: usize = 0;
        while i < self.entries.len()
            invariant
                i <= self.entries@.len(),
                out@.len() == dir_indices(self.entries@, dir, i as int).len(),
                forall|k: int| 0 <= k < out@.len() ==> {
                    let j = dir_indices(self.entries@, dir, i as int)[k];
                    (#[trigger] out@[k]).0@ == self.entries@[j].name@ && out@[k].1 == self.entries@[j].ino
                },
            decreases self.entries@.len() - i,
        {
            let ghost d0 = dir_indices(self.entries@, dir, i as int);
            let e = &self.entries[i];
            if e.parent == dir {
                out.push((e.name.clone(), e.ino));
                proof {
                    assert(dir_indices(self.entries@, dir, i + 1) == d0.push(i as int));
                }
            } else {
                proof {
                    assert(dir_indices(self.entries@, dir, i + 1) == d0);
                }
            }
            i = i + 1;
        }
        out
    }
}


/// The path separator.
pub const SLASH: u8 = 0x2f;
/// The byte `.`.
pub const DOT: u8 = 0x2e;

/// The name `.`.
pub open spec fn dot_name() -> Seq<u8> {
    seq![DOT]
}

/// The name `..`.
pub open spec fn dotdot_name() -> Seq<u8> {
    seq![DOT, DOT]
}

/// Byte-wise equality of two byte strings.
pub fn bytes_eq(a: &[u8], b: &[u8]) -> (r: bool)
    ensures
        r == (a@ == b@),
{
    if a.len() != b.len() {
        return false;
    }
    let mut i: usize = 0;
    while i < a.len()
        invariant
            a@.len() == b@.len(),
            0 <= i <= a@.len(),
            forall|j: int| 0 <= j < i ==> a@[j] == b@[j],
        decreases a@.len() - i,
    {
        if a[i] != b[i] {
            return false;
        }
        i = i + 1;
    }
    assert(a@ =~= b@);
    true
}

impl Vfs {
    /// Looking up `name` in `dir`: what one step of a path walk gives.
    pub open spec fn step(&self, dir: u64, name: Seq<u8>) -> Result<u64, FsError> {
        if !self.is_dir(dir) {
            Err(FsError::NotDirectory)
        } else if name.len() > NAME_MAX {
            Err(FsError::NameTooLong)
        } else if name == dot_name() {
            Ok(dir)
        } else if name == dotdot_name() {
            Ok(self.inodes()[dir as int].parent)
        } else if self.dir().contains_key((dir, name)) {
            Ok(self.dir()[(dir, name)])
        } else {
            Err(FsError::NotFound)
        }
    }

    /// Walking the bytes of `p` from `start`: the directory reached and the
    /// component read since the last separator, or the first error.
    pub open spec fn walk(&self, start: u64, p: Seq<u8>) -> Result<(u64, Seq<u8>), FsError>
        decreases p.len(),
    {
        if p.len() == 0 {
            Ok((start, Seq::<u8>::empty()))
        } else {
            match self.walk(start, p.drop_last()) {
                Err(e) => Err(e),
                Ok((dir, pend)) => if p.last() == SLASH {
                    if pend.len() == 0 {
                        Ok((dir, pend))
                    } else {
                        match self.step(dir, pend) {
                            Ok(n) => Ok((n, Seq::<u8>::empty())),
                            Err(e) => Err(e),
                        }
                    }
                } else {
                    Ok((dir, pend.push(p.last())))
                },
            }
        }
    }

    /// The end of a walk: the directory reached, or the last component
    /// looked up in it.
    pub open spec fn finish(&self, w: Result<(u64, Seq<u8>), FsError>) -> Result<u64, FsError> {
        match w {
            Err(e) => Err(e),
            Ok((dir, pend)) => if pend.len() == 0 { Ok(dir) } else { self.step(dir, pend) },
        }
    }

    /// The inode that `p` names from `start`, a final symbolic link not followed.
    pub open spec fn lookup_nofollow(&self, start: u64, p: Seq<u8>) -> Result<u64, FsError> {
        self.finish(self.walk(start, p))
    }

    /// The directory a walk of `p` ends in (where a relative link target starts).
    pub open spec fn walk_dir(&self, start: u64, p: Seq<u8>) -> u64 {
        match self.walk(start, p) {
            Ok((dir, _pend)) => dir,
            Err(_) => start,
        }
    }

    /// Where the target of link `n`, found in `dir`, leads (one level).
    pub open spec fn follow_link(&self, dir: u64, n: u64) -> Result<u64, FsError> {
        let target = self.link(n);
        let base = if target.len() > 0 && target[0] == SLASH { ROOT_INO } else { dir };
        self.lookup_nofollow(base, target)
    }

    /// The inode that `p` names from `start`; a final symbolic link is followed
    /// one level when `follow` is set.
    pub open spec fn lookup(&self, start: u64, p: Seq<u8>, follow: bool) -> Result<u64, FsError> {
        match self.lookup_nofollow(start, p) {
            Err(e) => Err(e),
            Ok(n) => if follow && self.is_symlink(n) {
                self.follow_link(self.walk_dir(start, p), n)
            } else {
                Ok(n)
            },
        }
    }

    /// A walk that failed on a prefix fails the same way on the whole path.
    pub proof fn lemma_walk_err_extends(&self, start: u64, p: Seq<u8>, i: int)
        requires
            0 <= i <= p.len(),
            self.walk(start, p.take(i)) is Err,
        ensures
            self.walk(start, p) == self.walk(start, p.take(i)),
        decreases p.len() - i,
    {
        if i < p.len() {
            assert(p.take(i + 1).drop_last() =~= p.take(i));
            self.lemma_walk_err_extends(start, p, i + 1);
        } else {
            assert(p.take(i) =~= p);
        }
    }

    /// The entry named `name` in `dir`, by index.
    fn find_entry(&self, dir: u64, name: &[u8]) -> (r: Option<usize>)
        requires
            self.wf(),
        ensures
            match r {
                Some(i) => has_entry(self.entries@, dir, name@, i as int),
                None => !self.dir().contains_key((dir, name@)),
            },
    {
        let mut i: usize = 0;
        while i < self.entries.len()
            invariant
                0 <= i <= self.entries@.len(),
                forall|j: int| 0 <= j < i ==> !#[trigger] has_entry(self.entries@, dir, name@, j),
            decreases self.entries@.len() - i,
        {
            let e = &self.entries[i];
            if e.parent == dir && bytes_eq(e.name.as_slice(), name) {
                return Some(i);
            }
            i = i + 1;
        }
        proof {
            let k = (dir, name@);
            if self.dir().contains_key(k) {
                let j = choose|j: int| has_entry(self.entries@, k.0, k.1, j);
                assert(has_entry(self.entries@, dir, name@, j));
            }
        }
        None
    }

    /// One step of a walk: `name` looked up in `dir`.
    pub fn lookup_child(&self, dir: u64, name: &[u8]) -> (r: Result<u64, FsError>)
        requires
            self.wf(),
        ensures
            r == self.step(dir, name@),
            r matches Ok(n) ==> self.valid(n),
    {
        let n = self.inodes.len();
        if dir >= n as u64 || self.inodes[dir as usize].itype != InodeType::Directory {
            return Err(FsError::NotDirectory);
        }
        if name.len() > NAME_MAX {
            return Err(FsError::NameTooLong);
        }
        if name.len() == 1 && name[0] == DOT {
            assert(name@ =~= dot_name());
            return Ok(dir);
        }
        if name.len() == 2 && name[0] == DOT && name[1] == DOT {
            assert(name@ =~= dotdot_name());
            return Ok(self.inodes[dir as usize].parent);
        }
        assert(name@ != dot_name() && name@ != dotdot_name()) by {
            if name@ == dot_name() { assert(name@.len() == 1 && name@[0] == DOT); }
            if name@ == dotdot_name() { assert(name@.len() == 2 && name@[0] == DOT && name@[1] == DOT); }
        }
        match self.find_entry(dir, name) {
            Some(i) => {
                proof { lemma_entry_map_at(self.entries@, i as int); }
                Ok(self.entries[i].ino)
            },
            None => Err(FsError::NotFound),
        }
    }

    /// Walks `p` from `start` (see `walk`).
    pub fn walk_path(&self, start: u64, p: &[u8]) -> (r: Result<(u64, Vec<u8>), FsError>)
        requires
            self.wf(),
            self.valid(start),
        ensures
            match r {
                Ok((d, pend)) => self.walk(start, p@) == Ok::<(u64, Seq<u8>), FsError>((d, pend@))
                    && self.valid(d),
                Err(e) => self.walk(start, p@) == Err::<(u64, Seq<u8>), FsError>(e),
            },
    {
        let mut dir = start;
        let mut pend: Vec<u8> = Vec::new();
        let mut i: usize = 0;
        assert(p@.take(0) =~= Seq::<u8>::empty());
        while i < p.len()
            invariant
                self.wf(),
                0 <= i <= p@.len(),
                self.valid(dir),
                self.walk(start, p@.take(i as int)) == Ok::<(u64, Seq<u8>), FsError>((dir, pend@)),
            decreases p@.len() - i,
        {
            let b = p[i];
            assert(p@.take(i + 1).drop_last() =~= p@.take(i as int));
            if b == SLASH {
                if pend.len() > 0 {
                    match self.lookup_child(dir, pend.as_slice()) {
                        Ok(n) => {
                            dir = n;
                            pend = Vec::new();
                        },
                        Err(e) => {
                            proof { self.lemma_walk_err_extends(start, p@, i + 1); }
                            return Err(e);
                        },
                    }
                }
            } else {
                pend.push(b);
            }
            i = i + 1;
        }
        assert(p@.take(i as int) =~= p@);
        Ok((dir, pend))
    }

    /// The inode `p` names from `start`, a final link not followed.
    pub fn lookup_path_nofollow(&self, start: u64, p: &[u8]) -> (r: Result<u64, FsError>)
        requires
            self.wf(),
            self.valid(start),
        ensures
            r == self.lookup_nofollow(start, p@),
            r matches Ok(n) ==> self.valid(n),
    {
        match self.walk_path(start, p) {
            Err(e) => Err(e),
            Ok((dir, pend)) => if pend.len() == 0 {
                Ok(dir)
            } else {
                self.lookup_child(dir, pend.as_slice())
            },
        }
    }

    /// The inode `p` names from `start`, following a final link one level
    /// when `follow` is set.
    pub fn lookup_path(&self, start: u64, p: &[u8], follow: bool) -> (r: Result<u64, FsError>)
        requires
            self.wf(),
            self.valid(start),
        ensures
            r == self.lookup(start, p@, follow),
            r matches Ok(n) ==> self.valid(n),
    {
        let (dir, pend) = match self.walk_path(start, p) {
            Err(e) => return Err(e),
            Ok(w) => w,
        };
        let n = if pend.len() == 0 {
            dir
        } else {
            match self.lookup_child(dir, pend.as_slice()) {
                Err(e) => return Err(e),
                Ok(n) => n,
            }
        };
        let _len = self.inodes.len();
        assert(self.walk_dir(start, p@) == dir);
        if follow && self.inodes[n as usize].itype == InodeType::Symlink {
            let target = self.data[n as usize].as_slice();
            assert(target@ == self.link(n));
            let base = if target.len() > 0 && target[0] == SLASH { ROOT_INO } else { dir };
            self.lookup_path_nofollow(base, target)
        } else {
            Ok(n)
        }
    }
}


impl Vfs {
    /// Why a new entry `name` cannot be made in `dir`, if it cannot.
    pub open spec fn create_error(&self, dir: u64, name: Seq<u8>) -> Option<FsError> {
        if !self.is_dir(dir) {
            Some(FsError::NotDirectory)
        } else if name.len() > NAME_MAX {
            Some(FsError::NameTooLong)
        } else if name.len() == 0 {
            Some(FsError::NotFound)
        } else if name == dot_name() || name == dotdot_name() || self.dir().contains_key((dir, name)) {
            Some(FsError::AlreadyExists)
        } else if self.inodes().len() + 1 >= u64::MAX {
            Some(FsError::NoSpace)
        } else {
            None
        }
    }

    /// Makes a new inode of type `itype` and enters it as `name` in `dir`;
    /// `link` is its target when it is a symbolic link.
    pub fn create(&mut self, dir: u64, name: &[u8], itype: InodeType, mode: u32, rdev: u64, link: &[u8])
        -> (r: Result<u64, FsError>)
        requires
            old(self).wf(),
            itype == InodeType::File ==> link@.len() == 0,
        ensures
            final(self).wf(),
            match old(self).create_error(dir, name@) {
                Some(e) => r == Err::<u64, FsError>(e) && *final(self) == *old(self),
                None => {
                    &&& r == Ok::<u64, FsError>(old(self).inodes().len() as u64)
                    &&& final(self).inodes() == old(self).inodes().push(Vfs::new_inode(itype, mode, rdev, dir))
                    &&& final(self).dir() == old(self).dir().insert((dir, name@), old(self).inodes().len() as u64)
                    &&& final(self).link(old(self).inodes().len() as u64) == link@
                    &&& forall|n: u64| old(self).valid(n) ==> #[trigger] final(self).link(n) == old(self).link(n)
                },
            },
    {
        let count = self.inodes.len();
        if dir >= count as u64 || self.inodes[dir as usize].itype != InodeType::Directory {
            return Err(FsError::NotDirectory);
        }
        if name.len() > NAME_MAX {
            return Err(FsError::NameTooLong);
        }
        if name.len() == 0 {
            return Err(FsError::NotFound);
        }
        if (name.len() == 1 && name[0] == DOT) || (name.len() == 2 && name[0] == DOT && name[1] == DOT) {
            proof {
                if name@.len() == 1 { assert(name@ =~= dot_name()); } else { assert(name@ =~= dotdot_name()); }
            }
            return Err(FsError::AlreadyExists);
        }
        assert(name@ != dot_name() && name@ != dotdot_name()) by {
            if name@ == dot_name() { assert(name@.len() == 1 && name@[0] == DOT); }
            if name@ == dotdot_name() { assert(name@.len() == 2 && name@[0] == DOT && name@[1] == DOT); }
        }
        if self.find_entry(dir, name).is_some() {
            proof {
                let i = choose|i: int| has_entry(self.entries@, dir, name@, i);
                lemma_entry_map_at(self.entries@, i);
            }
            return Err(FsError::AlreadyExists);
        }
        if count as u64 >= u64::MAX - 1 {
            return Err(FsError::NoSpace);
        }
        let ino = count as u64;
        let ghost old_entries = self.entries@;
        let ghost old_links = self.data@;
        self.inodes.push(Inode { itype, mode, uid: 0, gid: 0, size: 0, rdev, parent: dir });
        self.data.push(vstd::slice::slice_to_vec(link));
        let e = DirEntry { parent: dir, name: vstd::slice::slice_to_vec(name), ino };
        proof { lemma_entry_map_push(old_entries, e); }
        self.entries.push(e);
        assert(self.inodes() =~= old(self).inodes().push(Vfs::new_inode(itype, mode, rdev, dir)));
        assert forall|n: u64| old(self).valid(n) implies #[trigger] self.link(n) == old(self).link(n) by {
            assert(self.data@[n as int] == old_links[n as int]);
        }
        assert forall|i: int| 0 <= i < self.entries@.len() implies
            (#[trigger] self.entries@[i]).ino < self.inodes@.len()
            && self.entries@[i].parent < self.inodes@.len() by {
            if i < old_entries.len() { assert(self.entries@[i] == old_entries[i]); }
        }
        assert forall|i: int| 0 <= i < self.inodes@.len() implies
            (#[trigger] self.inodes@[i]).parent < self.inodes@.len() by {
            if i < count { assert(self.inodes@[i] == old(self).inodes@[i]); }
        }
        assert forall|i: int| 0 <= i < self.inodes@.len() && (#[trigger] self.inodes@[i]).itype == InodeType::File
            implies self.data@[i]@.len() == self.inodes@[i].size by {
            if i < count {
                assert(self.inodes@[i] == old(self).inodes@[i]);
                assert(self.data@[i] == old_links[i]);
            }
        }
        Ok(ino)
    }

    /// Whether some entry sits in directory `d`.
    fn has_children(&self, d: u64) -> (r: bool)
        requires
            self.wf(),
        ensures
            r == !self.is_empty_dir(d),
    {
        let mut i: usize = 0;
        while i < self.entries.len()
            invariant
                self.wf(),
                0 <= i <= self.entries@.len(),
                forall|j: int| 0 <= j < i ==> (#[trigger] self.entries@[j]).parent != d,
            decreases self.entries@.len() - i,
        {
            if self.entries[i].parent == d {
                proof {
                    let k = (d, self.entries@[i as int].name@);
                    lemma_entry_map_at(self.entries@, i as int);
                    assert(self.dir().contains_key(k));
                }
                return true;
            }
            i = i + 1;
        }
        proof {
            assert forall|k: (u64, Seq<u8>)| #[trigger] self.dir().contains_key(k) implies k.0 != d by {
                let j = choose|j: int| has_entry(self.entries@, k.0, k.1, j);
                assert(self.entries@[j].parent == k.0);
            }
        }
        false
    }

    /// Why `name` cannot be removed from `dir`, if it cannot.
    pub open spec fn unlink_error(&self, dir: u64, name: Seq<u8>) -> Option<FsError> {
        if !self.is_dir(dir) {
            Some(FsError::NotDirectory)
        } else if name.len() > NAME_MAX {
            Some(FsError::NameTooLong)
        } else if !self.dir().contains_key((dir, name)) {
            Some(FsError::NotFound)
        } else if self.is_dir(self.dir()[(dir, name)]) && !self.is_empty_dir(self.dir()[(dir, name)]) {
            Some(FsError::NotEmpty)
        } else {
            None
        }
    }

    /// Removes the entry `name` from `dir`; a directory must be empty.
    pub fn unlink(&mut self, dir: u64, name: &[u8]) -> (r: Result<(), FsError>)
        requires
            old(self).wf(),
        ensures
            final(self).wf(),
            final(self).inodes() == old(self).inodes(),
            forall|n: u64| #[trigger] final(self).link(n) == old(self).link(n),
            match old(self).unlink_error(dir, name@) {
                Some(e) => r == Err::<(), FsError>(e) && final(self).dir() == old(self).dir(),
                None => r == Ok::<(), FsError>(()) && final(self).dir() == old(self).dir().remove((dir, name@)),
            },
    {
        let count = self.inodes.len();
        if dir >= count as u64 || self.inodes[dir as usize].itype != InodeType::Directory {
            return Err(FsError::NotDirectory);
        }
        if name.len() > NAME_MAX {
            return Err(FsError::NameTooLong);
        }
        let i = match self.find_entry(dir, name) {
            None => return Err(FsError::NotFound),
            Some(i) => i,
        };
        proof { lemma_entry_map_at(self.entries@, i as int); }
        let target = self.entries[i].ino;
        if self.inodes[target as usize].itype == InodeType::Directory && self.has_children(target) {
            return Err(FsError::NotEmpty);
        }
        let ghost old_entries = self.entries@;
        proof { lemma_entry_map_remove(old_entries, i as int); }
        self.entries.remove(i);
        assert forall|j: int| 0 <= j < self.entries@.len() implies
            (#[trigger] self.entries@[j]).ino < self.inodes@.len()
            && self.entries@[j].parent < self.inodes@.len() by {
            if j < i { assert(self.entries@[j] == old_entries[j]); }
            else { assert(self.entries@[j] == old_entries[j + 1]); }
        }
        Ok(())
    }
}


impl Vfs {
    /// Why `on` in `od` cannot be renamed to `nn` in `nd`, if it cannot.
    pub open spec fn rename_error(&self, od: u64, on: Seq<u8>, nd: u64, nn: Seq<u8>) -> Option<FsError> {
        rename_err(self.inodes(), self.dir(), od, on, nd, nn)
    }

    /// The directory relation after a successful rename.
    pub open spec fn renamed_dir(&self, od: u64, on: Seq<u8>, nd: u64, nn: Seq<u8>) -> Map<(u64, Seq<u8>), u64> {
        rename_dir(self.dir(), od, on, nd, nn)
    }

    /// The inode table after a successful rename.
    pub open spec fn renamed_inodes(&self, od: u64, on: Seq<u8>, nd: u64, nn: Seq<u8>) -> Seq<Inode> {
        rename_inodes(self.inodes(), self.dir(), od, on, nd, nn)
    }

    /// Moves the entry `on` of `od` to the name `nn` in `nd`, replacing an
    /// existing target (a target directory must be empty).
    #[verifier::rlimit(50)]
    #[verifier::spinoff_prover]
    pub fn rename(&mut self, od: u64, on: &[u8], nd: u64, nn: &[u8]) -> (r: Result<(), FsError>)
        requires
            old(self).wf(),
        ensures
            final(self).wf(),
            forall|n: u64| #[trigger] final(self).link(n) == old(self).link(n),
            match old(self).rename_error(od, on@, nd, nn@) {
                Some(e) => r == Err::<(), FsError>(e) && *final(self) == *old(self),
                None => {
                    &&& r == Ok::<(), FsError>(())
                    &&& final(self).dir() == old(self).renamed_dir(od, on@, nd, nn@)
                    &&& final(self).inodes() == old(self).renamed_inodes(od, on@, nd, nn@)
                },
            },
    {
        let count = self.inodes.len();
        if od >= count as u64 || self.inodes[od as usize].itype != InodeType::Directory
            || nd >= count as u64 || self.inodes[nd as usize].itype != InodeType::Directory {
            return Err(FsError::NotDirectory);
        }
        if on.len() > NAME_MAX || nn.len() > NAME_MAX {
            return Err(FsError::NameTooLong);
        }
        let i = match self.find_entry(od, on) {
            None => return Err(FsError::NotFound),
            Some(i) => i,
        };
        proof { lemma_entry_map_at(self.entries@, i as int); }
        let ino = self.entries[i].ino;
        if od == nd && bytes_eq(on, nn) {
            return Ok(());
        }
        let ghost key_o = (od, on@);
        let ghost key_n = (nd, nn@);
        assert(key_o != key_n);
        let ghost m0 = self.dir();
        let mut oi = i;
        match self.find_entry(nd, nn) {
            Some(j) => {
                proof { lemma_entry_map_at(self.entries@, j as int); }
                let t = self.entries[j].ino;
                if self.inodes[t as usize].itype == InodeType::Directory && self.has_children(t) {
                    return Err(FsError::NotEmpty);
                }
                let ghost before = self.entries@;
                proof { lemma_entry_map_remove(before, j as int); }
                self.entries.remove(j);
                assert(j != i);
                if i > j {
                    oi = i - 1;
                }
                assert(self.entries@[oi as int] == before[i as int]);
                assert forall|a: int| 0 <= a < self.entries@.len() implies
                    (#[trigger] self.entries@[a]).ino < self.inodes@.len()
                    && self.entries@[a].parent < self.inodes@.len() by {
                    if a < j { assert(self.entries@[a] == before[a]); }
                    else { assert(self.entries@[a] == before[a + 1]); }
                }
            },
            None => {},
        }
        let ghost m1 = self.dir();
        assert(m1 == m0.remove(key_n));
        let ghost before = self.entries@;
        proof { lemma_entry_map_remove(before, oi as int); }
        self.entries.remove(oi);
        let ghost m2 = self.dir();
        assert(m2 == m1.remove(key_o));
        let e = DirEntry { parent: nd, name: vstd::slice::slice_to_vec(nn), ino };
        assert(!m2.contains_key(key_n));
        let ghost before2 = self.entries@;
        proof { lemma_entry_map_push(before2, e); }
        self.entries.push(e);
        assert(self.dir() =~= m0.remove(key_o).insert(key_n, ino));
        assert forall|a: int| 0 <= a < self.entries@.len() implies
            (#[trigger] self.entries@[a]).ino < self.inodes@.len()
            && self.entries@[a].parent < self.inodes@.len() by {
            if a < oi { assert(self.entries@[a] == before[a]); }
            else if a < before2.len() { assert(self.entries@[a] == before[a + 1]); }
        }
        if self.inodes[ino as usize].itype == InodeType::Directory {
            let node = self.inodes[ino as usize];
            self.inodes.set(ino as usize, Inode { parent: nd, ..node });
            assert forall|a: int| 0 <= a < self.inodes@.len() implies
                (#[trigger] self.inodes@[a]).parent < self.inodes@.len() by {
                if a != ino { assert(self.inodes@[a] == old(self).inodes@[a]); }
            }
        }
        Ok(())
    }

    /// Sets the owner and group of `ino`; `u32::MAX` leaves a field as it is.
    pub fn chown(&mut self, ino: u64, uid: u32, gid: u32)
        requires
            old(self).wf(),
            old(self).valid(ino),
        ensures
            final(self).wf(),
            final(self).dir() == old(self).dir(),
            forall|n: u64| #[trigger] final(self).link(n) == old(self).link(n),
            final(self).inodes() == old(self).inodes().update(ino as int, Inode {
                uid: if uid == u32::MAX { old(self).inodes()[ino as int].uid } else { uid },
                gid: if gid == u32::MAX { old(self).inodes()[ino as int].gid } else { gid },
                ..old(self).inodes()[ino as int]
            }),
    {
        let _n = self.inodes.len();
        let node = self.inodes[ino as usize];
        let nu = if uid == u32::MAX { node.uid } else { uid };
        let ng = if gid == u32::MAX { node.gid } else { gid };
        self.inodes.set(ino as usize, Inode { uid: nu, gid: ng, ..node });
        assert forall|a: int| 0 <= a < self.inodes@.len() implies
            (#[trigger] self.inodes@[a]).parent < self.inodes@.len() by {
            if a != ino { assert(self.inodes@[a] == old(self).inodes@[a]); }
        }
    }

    /// Sets the permission bits of `ino`.
    pub fn chmod(&mut self, ino: u64, mode: u32)
        requires
            old(self).wf(),
            old(self).valid(ino),
        ensures
            final(self).wf(),
            final(self).dir() == old(self).dir(),
            forall|n: u64| #[trigger] final(self).link(n) == old(self).link(n),
            final(self).inodes() == old(self).inodes().update(ino as int,
                Inode { mode, ..old(self).inodes()[ino as int] }),
    {
        let _n = self.inodes.len();
        let node = self.inodes[ino as usize];
        self.inodes.set(ino as usize, Inode { mode, ..node });
        assert forall|a: int| 0 <= a < self.inodes@.len() implies
            (#[trigger] self.inodes@[a]).parent < self.inodes@.len() by {
            if a != ino { assert(self.inodes@[a] == old(self).inodes@[a]); }
        }
    }

    /// Sets the size of `ino`; a directory cannot be truncated. A regular
    /// file's contents are cut, or padded with zero bytes.
    pub fn truncate(&mut self, ino: u64, size: u64) -> (r: Result<(), FsError>)
        requires
            old(self).wf(),
            old(self).valid(ino),
        ensures
            final(self).wf(),
            final(self).dir() == old(self).dir(),
            forall|n: u64| n != ino && old(self).valid(n) ==> #[trigger] final(self).link(n) == old(self).link(n),
            if old(self).is_dir(ino) {
                r == Err::<(), FsError>(FsError::IsDirectory) && *final(self) == *old(self)
            } else {
                &&& r == Ok::<(), FsError>(())
                &&& final(self).inodes() == old(self).inodes().update(ino as int,
                    Inode { size, ..old(self).inodes()[ino as int] })
                &&& final(self).link(ino) == if old(self).inodes()[ino as int].itype == InodeType::File {
                    resized(old(self).link(ino), size as nat)
                } else {
                    old(self).link(ino)
                }
            },
    {
        let _n = self.inodes.len();
        let node = self.inodes[ino as usize];
        if node.itype == InodeType::Directory {
            return Err(FsError::IsDirectory);
        }
        if node.itype == InodeType::File {
            let nd = resize_bytes(&self.data[ino as usize], size);
            self.data.set(ino as usize, nd);
        }
        self.inodes.set(ino as usize, Inode { size, ..node });
        assert forall|a: int| 0 <= a < self.inodes@.len() implies
            (#[trigger] self.inodes@[a]).parent < self.inodes@.len() by {
            if a != ino { assert(self.inodes@[a] == old(self).inodes@[a]); }
        }
        assert forall|a: int| 0 <= a < self.inodes@.len() && (#[trigger] self.inodes@[a]).itype == InodeType::File
            implies self.data@[a]@.len() == self.inodes@[a].size by {
            if a != ino {
                assert(self.inodes@[a] == old(self).inodes@[a]);
                assert(self.data@[a] == old(self).data@[a]);
            }
        }
        assert forall|n: u64| n != ino && old(self).valid(n) implies #[trigger] self.link(n) == old(self).link(n) by {
            assert(self.data@[n as int] == old(self).data@[n as int]);
        }
        Ok(())
    }

    /// The bytes inode `ino` holds.
    pub fn content(&self, ino: u64) -> (r: &[u8])
        requires
            self.wf(),
            self.valid(ino),
        ensures
            r@ == self.link(ino),
    {
        let _n = self.data.len();
        self.data[ino as usize].as_slice()
    }

    /// Replaces the contents of the regular file `ino` by `bytes`.
    pub fn set_content(&mut self, ino: u64, bytes: &[u8])
        requires
            old(self).wf(),
            old(self).valid(ino),
            old(self).inodes()[ino as int].itype == InodeType::File,
        ensures
            final(self).wf(),
            final(self).dir() == old(self).dir(),
            final(self).link(ino) == bytes@,
            forall|n: u64| n != ino && old(self).valid(n) ==> #[trigger] final(self).link(n) == old(self).link(n),
            final(self).inodes() == old(self).inodes().update(ino as int,
                Inode { size: bytes@.len() as u64, ..old(self).inodes()[ino as int] }),
    {
        let _n = self.inodes.len();
        let node = self.inodes[ino as usize];
        self.data.set(ino as usize, vstd::slice::slice_to_vec(bytes));
        self.inodes.set(ino as usize, Inode { size: bytes.len() as u64, ..node });
        assert forall|a: int| 0 <= a < self.inodes@.len() implies
            (#[trigger] self.inodes@[a]).parent < self.inodes@.len() by {
            if a != ino { assert(self.inodes@[a] == old(self).inodes@[a]); }
        }
        assert forall|a: int| 0 <= a < self.inodes@.len() && (#[trigger] self.inodes@[a]).itype == InodeType::File
            implies self.data@[a]@.len() == self.inodes@[a].size by {
            if a != ino {
                assert(self.inodes@[a] == old(self).inodes@[a]);
                assert(self.data@[a] == old(self).data@[a]);
            }
        }
        assert forall|n: u64| n != ino && old(self).valid(n) implies #[trigger] self.link(n) == old(self).link(n) by {
            assert(self.data@[n as int] == old(self).data@[n as int]);
        }
    }
}

/// `s` cut to `n` bytes, or padded with zero bytes to `n`.
pub open spec fn resized(s: Seq<u8>, n: nat) -> Seq<u8> {
    if n <= s.len() { s.take(n as int) } else { s + Seq::new((n - s.len()) as nat, |i: int| 0u8) }
}

fn resize_bytes(v: &Vec<u8>, n: u64) -> (r: Vec<u8>)
    ensures
        r@ == resized(v@, n as nat),
{
    let mut out: Vec<u8> = Vec::new();
    let mut i: usize = 0;
    while i < v.len() && (i as u64) < n
        invariant
            0 <= i <= v@.len(),
            i <= n,
            out@ == v@.take(i as int),
        decreases v@.len() - i,
    {
        out.push(v[i]);
        assert(v@.take(i + 1) =~= v@.take(i as int).push(v@[i as int]));
        i = i + 1;
    }
    let mut k: u64 = i as u64;
    let ghost base = out@;
    while k < n
        invariant
            i <= k <= n || n < i,
            k >= i,
            out@ == base + Seq::new((k - i) as nat, |j: int| 0u8),
        decreases n - k,
    {
        out.push(0u8);
        assert(out@ =~= base + Seq::new((k + 1 - i) as nat, |j: int| 0u8));
        k = k + 1;
    }
    proof {
        if n as nat <= v@.len() {
            assert(i == n);
            assert(out@ =~= v@.take(n as int));
        } else {
            assert(i == v@.len());
            assert(base =~= v@);
            assert(out@ =~= resized(v@, n as nat));
        }
    }
    out
}

} // verus!
