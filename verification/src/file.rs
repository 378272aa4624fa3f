//! Open file descriptions, mounts and the per-process file system context.

use vstd::prelude::*;
use std::collections::BTreeMap;
use crate::errno::FsError;
use crate::vfs::{Vfs, InodeType, ROOT_INO};

verus! {

broadcast use vstd::std_specs::btree::group_btree_axioms;

pub const O_RDONLY: u32 = 0;
pub const O_WRONLY: u32 = 0o1;
pub const O_RDWR: u32 = 0o2;
pub const O_ACCMODE: u32 = 0o3;
pub const O_CREAT: u32 = 0o100;
pub const O_EXCL: u32 = 0o200;
pub const O_TRUNC: u32 = 0o1000;
pub const O_APPEND: u32 = 0o2000;
pub const O_NONBLOCK: u32 = 0o4000;
pub const O_DIRECTORY: u32 = 0o200000;
pub const O_NOFOLLOW: u32 = 0o400000;
pub const O_CLOEXEC: u32 = 0o2000000;
/// Every flag bit `open` knows.
pub const O_ALL_FLAGS: u32 = 0o37777703;

/// `flags` opens for writing.
pub open spec fn spec_writable(flags: u32) -> bool {
    flags & O_ACCMODE == O_WRONLY || flags & O_ACCMODE == O_RDWR
}

/// Whether `flags` opens for writing.
pub fn writable(flags: u32) -> (r: bool)
    ensures
        r == spec_writable(flags),
{
    let m = flags & O_ACCMODE;
    m == O_WRONLY || m == O_RDWR
}

/// What an open file description refers to.
#[derive(Clone, Copy, Debug, PartialEq, Eq, Structural)]
pub enum FileKind {
    /// A regular file, directory or symbolic link of the tree.
    Regular,
    CharDevice,
    BlockDevice,
    /// A socket, by its handle in the network stack.
    Socket(u64),
    /// One end of a pipe.
    Pipe,
}

/// An open file description.
#[derive(Clone, Copy, Debug, PartialEq, Eq, Structural)]
pub struct OpenFile {
    pub kind: FileKind,
    /// The inode, for files of the tree.
    pub ino: u64,
    pub flags: u32,
    pub offset: u64,
    /// The process that receives `SIGIO` for this file (`F_SETOWN`).
    pub owner: i32,
    /// The capacity of a pipe, in bytes.
    pub pipe_size: usize,
}

impl OpenFile {
    /// The file sits in the tree (it has a directory entry).
    pub open spec fn has_dentry(self) -> bool {
        self.kind == FileKind::Regular || self.kind == FileKind::CharDevice
            || self.kind == FileKind::BlockDevice
    }
}

/// The kind of a mounted file system.
#[derive(Clone, Copy, Debug, PartialEq, Eq, Structural)]
pub enum FsType {
    Ext4,
    Tmpfs,
    Procfs,
    Sysfs,
    Devfs,
}

/// One mount: what is mounted and the device it came from.
#[derive(Debug)]
pub struct Mount {
    pub fstype: FsType,
    pub source: Vec<u8>,
}

/// A block device the kernel found.
#[derive(Debug)]
pub struct BlockDevice {
    pub name: Vec<u8>,
    /// It holds an ext4 file system that can be opened.
    pub ext4: bool,
}

/// The working and root directories of a process.
#[derive(Clone, Copy, Debug, PartialEq, Eq, Structural)]
pub struct FsStruct {
    pub cwd: Option<u64>,
    pub root: Option<u64>,
}

impl FsStruct {
    pub fn new(cwd: Option<u64>, root: Option<u64>) -> (r: Self)
        ensures
            r.cwd == cwd,
            r.root == root,
    {
        FsStruct { cwd, root }
    }
}

/// The file system state shared by all processes.
pub struct FileSystem {
    pub vfs: Vfs,
    /// Open file descriptions, by id.
    pub files: Vec<OpenFile>,
    /// Mounts, by the inode of their mount point.
    pub mounts: BTreeMap<u64, Mount>,
    pub devices: Vec<BlockDevice>,
}

impl FileSystem {
    pub open spec fn wf(&self) -> bool {
        &&& self.vfs.wf()
        &&& forall|i: int| 0 <= i < self.files@.len() && (#[trigger] self.files@[i]).has_dentry()
                ==> self.vfs.valid(self.files@[i].ino)
        &&& self.files@.len() < u64::MAX
    }

    /// The open file `id`, if there is one.
    pub open spec fn file(&self, id: u64) -> Option<OpenFile> {
        if id < self.files@.len() { Some(self.files@[id as int]) } else { None }
    }

    /// A tree holding only the root directory, mounted from `root_fs`.
    pub fn new(root_fs: FsType, devices: Vec<BlockDevice>) -> (fs: Self)
        ensures
            fs.wf(),
            fs.files@.len() == 0,
            fs.mounts@.dom() == set![ROOT_INO],
            fs.mounts@[ROOT_INO].fstype == root_fs,
            fs.vfs.inodes().len() == 1,
            fs.devices@ == devices@,
    {
        let mut mounts = BTreeMap::new();
        mounts.insert(ROOT_INO, Mount { fstype: root_fs, source: Vec::new() });
        assert(mounts@.dom() =~= set![ROOT_INO]);
        FileSystem { vfs: Vfs::new(0o755), files: Vec::new(), mounts, devices }
    }

    /// The open file `id`.
    pub fn get_file(&self, id: u64) -> (r: Option<OpenFile>)
        ensures
            r == self.file(id),
    {
        if id < self.files.len() as u64 { Some(self.files[id as usize]) } else { None }
    }

    /// Records a new open file description and returns its id.
    pub fn add_file(&mut self, f: OpenFile) -> (id: u64)
        requires
            old(self).wf(),
            old(self).files@.len() + 1 < u64::MAX,
            f.has_dentry() ==> old(self).vfs.valid(f.ino),
        ensures
            final(self).wf(),
            id == old(self).files@.len(),
            final(self).files@ == old(self).files@.push(f),
            final(self).vfs == old(self).vfs,
            final(self).mounts == old(self).mounts,
            final(self).devices == old(self).devices,
    {
        let id = self.files.len() as u64;
        self.files.push(f);
        assert forall|i: int| 0 <= i < self.files@.len() && (#[trigger] self.files@[i]).has_dentry()
            implies self.vfs.valid(self.files@[i].ino) by {
            if i < old(self).files@.len() { assert(self.files@[i] == old(self).files@[i]); }
        }
        id
    }

    /// Moves the offset of open file `id` to `off`.
    pub fn set_offset(&mut self, id: u64, off: u64)
        requires
            old(self).wf(),
            id < old(self).files@.len(),
        ensures
            final(self).wf(),
            final(self).files@ == old(self).files@.update(id as int,
                OpenFile { offset: off, ..old(self).files@[id as int] }),
            final(self).vfs == old(self).vfs,
            final(self).mounts == old(self).mounts,
            final(self).devices == old(self).devices,
    {
        let f = self.files[id as usize];
        self.files.set(id as usize, OpenFile { offset: off, ..f });
        assert forall|i: int| 0 <= i < self.files@.len() && (#[trigger] self.files@[i]).has_dentry()
            implies self.vfs.valid(self.files@[i].ino) by {
            assert(old(self).files@[i].has_dentry());
        }
    }

    /// Replaces open file `id` by `f`, which refers to the same inode.
    pub fn set_file(&mut self, id: u64, f: OpenFile)
        requires
            old(self).wf(),
            id < old(self).files@.len(),
            f.has_dentry() ==> old(self).vfs.valid(f.ino),
        ensures
            final(self).wf(),
            final(self).files@ == old(self).files@.update(id as int, f),
            final(self).vfs == old(self).vfs,
            final(self).mounts == old(self).mounts,
            final(self).devices == old(self).devices,
    {
        let _n = self.files.len();
        self.files.set(id as usize, f);
        assert forall|i: int| 0 <= i < self.files@.len() && (#[trigger] self.files@[i]).has_dentry()
            implies self.vfs.valid(self.files@[i].ino) by {
            if i != id {
                assert(self.files@[i] == old(self).files@[i]);
                assert(old(self).files@[i].has_dentry());
            }
        }
    }

    /// A change of the tree that keeps every inode keeps the whole well-formed.
    pub proof fn lemma_wf_after_vfs(old: FileSystem, new: FileSystem)
        requires
            old.wf(),
            new.vfs.wf(),
            new.files@ == old.files@,
            new.vfs.inodes().len() >= old.vfs.inodes().len(),
        ensures
            new.wf(),
    {
        assert forall|i: int| 0 <= i < new.files@.len() && (#[trigger] new.files@[i]).has_dentry()
            implies new.vfs.valid(new.files@[i].ino) by {
            assert(old.vfs.valid(old.files@[i].ino));
        }
    }

    /// The type of inode `ino`.
    pub open spec fn itype(&self, ino: u64) -> InodeType {
        self.vfs.inodes()[ino as int].itype
    }
}

} // verus!
