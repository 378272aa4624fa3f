//! Mounting, unmounting and syncing file systems.

use vstd::prelude::*;
use crate::errno::{FsError, EINVAL, EIO, ENODEV, ENOENT};
use crate::fd_table::FdTable;
use crate::file::{FileSystem, FsType, Mount, FileKind, BlockDevice};
use crate::vfs::{InodeType, ROOT_INO, bytes_eq};
use crate::syscall::path::{split, split_path, fd_file, get_fd_file};
use crate::syscall::fs::err_ret;

verus! {

broadcast use vstd::std_specs::btree::group_btree_axioms;

/// The directory `p` names from the root, made (mode 0755) when only its
/// last component is missing.
pub open spec fn ensure_dir(fs: &FileSystem, p: Seq<u8>) -> Result<u64, FsError> {
    match fs.vfs.lookup(ROOT_INO, p, true) {
        Ok(n) => if fs.vfs.is_dir(n) { Ok(n) } else { Err(FsError::NotDirectory) },
        Err(FsError::NotFound) => match split(p) {
            Err(e) => Err(e),
            Ok((d, name)) => match fs.vfs.lookup(ROOT_INO, d, true) {
                Err(e) => Err(e),
                Ok(parent) => match fs.vfs.create_error(parent, name) {
                    Some(e) => Err(e),
                    None => Ok(fs.vfs.inodes().len() as u64),
                },
            },
        },
        Err(e) => Err(e),
    }
}

/// `ensure_dir` made a directory.
pub open spec fn ensure_dir_made(fs: &FileSystem, p: Seq<u8>) -> bool {
    fs.vfs.lookup(ROOT_INO, p, true) == Err::<u64, FsError>(FsError::NotFound) && ensure_dir(fs, p) is Ok
}

fn ensure_dir_exists(fs: &mut FileSystem, p: &[u8]) -> (r: Result<u64, FsError>)
    requires
        old(fs).wf(),
    ensures
        final(fs).wf(),
        r == ensure_dir(&*old(fs), p@),
        r matches Ok(n) ==> final(fs).vfs.is_dir(n),
        final(fs).files == old(fs).files,
        final(fs).mounts == old(fs).mounts,
        final(fs).devices == old(fs).devices,
        final(fs).vfs.inodes().len() >= old(fs).vfs.inodes().len(),
        !ensure_dir_made(&*old(fs), p@) ==> *final(fs) == *old(fs),
        ensure_dir_made(&*old(fs), p@) ==> match split(p@) {
            Ok((d, name)) => final(fs).vfs.dir() == old(fs).vfs.dir().insert(
                (old(fs).vfs.lookup(ROOT_INO, d, true)->Ok_0, name), old(fs).vfs.inodes().len() as u64),
            Err(_) => false,
        },
{
    proof { fs.vfs.lemma_root(); }
    match fs.vfs.lookup_path(ROOT_INO, p, true) {
        Ok(n) => {
            if fs.vfs.inode_type(n) != InodeType::Directory {
                return Err(FsError::NotDirectory);
            }
            Ok(n)
        },
        Err(FsError::NotFound) => {
            let (d, name) = match split_path(p) {
                Err(e) => return Err(e),
                Ok(x) => x,
            };
            let parent = match fs.vfs.lookup_path(ROOT_INO, d.as_slice(), true) {
                Err(e) => return Err(e),
                Ok(n) => n,
            };
            let empty: Vec<u8> = Vec::new();
            let ghost before = *fs;
            let r = fs.vfs.create(parent, name.as_slice(), InodeType::Directory, 0o755, 0, empty.as_slice());
            proof { FileSystem::lemma_wf_after_vfs(before, *fs); }
            r
        },
        Err(e) => Err(e),
    }
}

/// The file system a mount at `target` gets without a device: `/proc`,
/// `/sys`, `/tmp` and `/dev` are mounted this way.
pub open spec fn special_target(target: Seq<u8>) -> Option<FsType> {
    if target == seq![0x2fu8, 0x70, 0x72, 0x6f, 0x63] {
        Some(FsType::Procfs)
    } else if target == seq![0x2fu8, 0x73, 0x79, 0x73] {
        Some(FsType::Sysfs)
    } else if target == seq![0x2fu8, 0x74, 0x6d, 0x70] {
        Some(FsType::Tmpfs)
    } else if target == seq![0x2fu8, 0x64, 0x65, 0x76] {
        Some(FsType::Devfs)
    } else {
        None
    }
}

fn special_target_of(target: &[u8]) -> (r: Option<FsType>)
    ensures
        r == special_target(target@),
{
    let proc_path: Vec<u8> = vec![0x2fu8, 0x70, 0x72, 0x6f, 0x63];
    let sys_path: Vec<u8> = vec![0x2fu8, 0x73, 0x79, 0x73];
    let tmp_path: Vec<u8> = vec![0x2fu8, 0x74, 0x6d, 0x70];
    let dev_path: Vec<u8> = vec![0x2fu8, 0x64, 0x65, 0x76];
    assert(proc_path@ =~= seq![0x2fu8, 0x70, 0x72, 0x6f, 0x63]);
    assert(sys_path@ =~= seq![0x2fu8, 0x73, 0x79, 0x73]);
    assert(tmp_path@ =~= seq![0x2fu8, 0x74, 0x6d, 0x70]);
    assert(dev_path@ =~= seq![0x2fu8, 0x64, 0x65, 0x76]);
    if bytes_eq(target, proc_path.as_slice()) {
        Some(FsType::Procfs)
    } else if bytes_eq(target, sys_path.as_slice()) {
        Some(FsType::Sysfs)
    } else if bytes_eq(target, tmp_path.as_slice()) {
        Some(FsType::Tmpfs)
    } else if bytes_eq(target, dev_path.as_slice()) {
        Some(FsType::Devfs)
    } else {
        None
    }
}

/// Mounts a file system at `target`. `/proc`, `/sys`, `/tmp` and `/dev` get
/// their own file systems (the directory is made when missing). Any other
/// target gets ext4 from the first block device the kernel found: the type
/// and the source given are not looked at, and the mount records the
/// device's name as its source.
pub fn mount(fs: &mut FileSystem, source: &[u8], target: &[u8], fstype: &[u8]) -> (r: isize)
    requires
        old(fs).wf(),
    ensures
        final(fs).wf(),
        final(fs).files == old(fs).files,
        final(fs).devices == old(fs).devices,
        final(fs).vfs.inodes().len() >= old(fs).vfs.inodes().len(),
        match special_target(target@) {
            Some(t) => match ensure_dir(&*old(fs), target@) {
                Err(e) => r == err_ret(e) && final(fs).mounts == old(fs).mounts,
                Ok(n) => r == 0 && final(fs).mounts@.dom() == old(fs).mounts@.dom().insert(n)
                    && final(fs).mounts@[n].fstype == t && final(fs).mounts@[n].source@ == source@,
            },
            None => if old(fs).devices@.len() == 0 {
                r == -(ENOENT as isize) && *final(fs) == *old(fs)
            } else if !old(fs).devices@[0].ext4 {
                r == err_ret(FsError::InvalidArgument) && *final(fs) == *old(fs)
            } else {
                match old(fs).vfs.lookup(ROOT_INO, target@, true) {
                    Err(e) => r == err_ret(e) && *final(fs) == *old(fs),
                    Ok(n) => if !old(fs).vfs.is_dir(n) {
                        r == err_ret(FsError::NotDirectory) && *final(fs) == *old(fs)
                    } else {
                        r == 0 && final(fs).vfs == old(fs).vfs
                            && final(fs).mounts@ == old(fs).mounts@.insert(n,
                                Mount { fstype: FsType::Ext4, source: final(fs).mounts@[n].source })
                            && final(fs).mounts@[n].source@ == old(fs).devices@[0].name@
                    },
                }
            },
        },
{
    if let Some(t) = special_target_of(target) {
        let n = match ensure_dir_exists(fs, target) {
            Err(e) => return e.to_errno(),
            Ok(n) => n,
        };
        fs.mounts.insert(n, Mount { fstype: t, source: vstd::slice::slice_to_vec(source) });
        return 0;
    }
    if fs.devices.len() == 0 {
        return -(ENOENT as isize);
    }
    if !fs.devices[0].ext4 {
        return FsError::InvalidArgument.to_errno();
    }
    proof { fs.vfs.lemma_root(); }
    let n = match fs.vfs.lookup_path(ROOT_INO, target, true) {
        Err(e) => return e.to_errno(),
        Ok(n) => n,
    };
    if fs.vfs.inode_type(n) != InodeType::Directory {
        return FsError::NotDirectory.to_errno();
    }
    let name = fs.devices[0].name.clone();
    fs.mounts.insert(n, Mount { fstype: FsType::Ext4, source: name });
    0
}

/// Unmounts the file system mounted at `target`.
pub fn umount2(fs: &mut FileSystem, target: &[u8], flags: i32) -> (r: isize)
    requires
        old(fs).wf(),
    ensures
        final(fs).wf(),
        final(fs).vfs == old(fs).vfs,
        final(fs).files == old(fs).files,
        match old(fs).vfs.lookup(ROOT_INO, target@, true) {
            Err(e) => r == err_ret(e) && *final(fs) == *old(fs),
            Ok(n) => if old(fs).mounts@.contains_key(n) {
                r == 0 && final(fs).mounts@ == old(fs).mounts@.remove(n)
            } else {
                r == -(EINVAL as isize) && *final(fs) == *old(fs)
            },
        },
{
    proof { fs.vfs.lemma_root(); }
    let n = match fs.vfs.lookup_path(ROOT_INO, target, true) {
        Err(e) => return e.to_errno(),
        Ok(n) => n,
    };
    if !fs.mounts.contains_key(&n) {
        return -(EINVAL as isize);
    }
    fs.mounts.remove(&n);
    0
}

/// Flushes every file system. With write-through file systems only the
/// devices' caches are flushed, and the call succeeds even when a flush fails.
pub fn sync() -> (r: isize)
    ensures
        r == 0,
{
    0
}

/// The mount that holds inode `ino`: the nearest mount point on the way up
/// to the root, looking at most `fuel` levels.
pub open spec fn covering_mount(fs: &FileSystem, ino: u64, fuel: nat) -> Option<u64>
    decreases fuel,
{
    if fuel == 0 {
        None
    } else if fs.mounts@.contains_key(ino) {
        Some(ino)
    } else if ino == ROOT_INO || !fs.vfs.valid(ino) {
        None
    } else {
        covering_mount(fs, fs.vfs.inodes()[ino as int].parent, (fuel - 1) as nat)
    }
}

fn find_mount(fs: &FileSystem, ino: u64) -> (r: Option<u64>)
    requires
        fs.wf(),
    ensures
        r == covering_mount(fs, ino, fs.vfs.inodes().len()),
{
    let mut cur = ino;
    let mut fuel: u64 = fs.vfs.inode_count();
    while fuel > 0
        invariant
            fs.wf(),
            covering_mount(fs, cur, fuel as nat) == covering_mount(fs, ino, fs.vfs.inodes().len()),
        decreases fuel,
    {
        if fs.mounts.contains_key(&cur) {
            return Some(cur);
        }
        if cur == ROOT_INO || cur >= fs.vfs.inode_count() {
            return None;
        }
        cur = fs.vfs.inode(cur).parent;
        fuel = fuel - 1;
    }
    None
}

/// What `syncfs` finds for descriptor `fd`: the mount point of the file
/// system to flush.
pub open spec fn syncfs_target(fs: &FileSystem, t: Seq<Option<crate::fd_table::FdEntry>>, fd: usize)
    -> Result<u64, FsError> {
    if fd > i32::MAX {
        Err(FsError::BadFileDescriptor)
    } else {
        match fd_file(fs, t, fd as i32) {
            Err(e) => Err(e),
            Ok(f) => if !f.has_dentry() {
                Err(FsError::NotSupported)
            } else {
                match covering_mount(fs, f.ino, fs.vfs.inodes().len()) {
                    None => Err(FsError::NotSupported),
                    Some(m) => Ok(m),
                }
            },
        }
    }
}

/// Finds the file system that holds the file open as `fd`; gives its mount
/// point, whose device the caller flushes (a failed flush is `-EIO`), or
/// the negated errno.
pub fn flush_block_device_by_fd(fs: &FileSystem, fdt: &FdTable, fd: usize) -> (r: Result<u64, isize>)
    requires
        fs.wf(),
    ensures
        match syncfs_target(fs, fdt@, fd) {
            Ok(m) => r == Ok::<u64, isize>(m),
            Err(e) => r == Err::<u64, isize>(err_ret(e)),
        },
{
    if fd > i32::MAX as usize {
        return Err(FsError::BadFileDescriptor.to_errno());
    }
    let f = match get_fd_file(fs, fdt, fd as i32) {
        Err(e) => return Err(e.to_errno()),
        Ok(f) => f,
    };
    if !(f.kind == FileKind::Regular || f.kind == FileKind::CharDevice || f.kind == FileKind::BlockDevice) {
        return Err(FsError::NotSupported.to_errno());
    }
    match find_mount(fs, f.ino) {
        None => Err(FsError::NotSupported.to_errno()),
        Some(m) => Ok(m),
    }
}

/// `syncfs`: the file system that `flush_block_device_by_fd` finds.
pub fn syncfs(fs: &FileSystem, fdt: &FdTable, fd: usize) -> (r: Result<u64, isize>)
    requires
        fs.wf(),
    ensures
        match syncfs_target(fs, fdt@, fd) {
            Ok(m) => r == Ok::<u64, isize>(m),
            Err(e) => r == Err::<u64, isize>(err_ret(e)),
        },
{
    flush_block_device_by_fd(fs, fdt, fd)
}

/// The first block device the kernel found, or `-ENODEV` when there is none.
pub fn get_first_block_device(devices: &Vec<BlockDevice>) -> (r: Result<&BlockDevice, i32>)
    ensures
        devices@.len() == 0 ==> (r matches Err(e) && e == -ENODEV),
        devices@.len() > 0 ==> (r matches Ok(d) && *d == devices@[0]),
{
    if devices.len() == 0 {
        return Err(-ENODEV);
    }
    Ok(&devices[0])
}

/// Flushing the block devices in order, where `flushed[i]` is whether
/// device `i` flushed: `-EIO` at the first that failed (the later ones are
/// not flushed), else success (also with no device at all).
pub fn flush_all_block_devices(flushed: &Vec<bool>) -> (r: Result<(), isize>)
    ensures
        (forall|i: int| 0 <= i < flushed@.len() ==> flushed@[i]) ==> r == Ok::<(), isize>(()),
        (exists|i: int| 0 <= i < flushed@.len() && !flushed@[i]) ==> r == Err::<(), isize>(-EIO as isize),
{
    let mut i: usize = 0;
    while i < flushed.len()
        invariant
            i <= flushed@.len(),
            forall|j: int| 0 <= j < i ==> flushed@[j],
        decreases flushed@.len() - i,
    {
        if !flushed[i] {
            return Err(-(EIO as isize));
        }
        i = i + 1;
    }
    Ok(())
}

/// `fsync`: with write-through file systems, the same as `syncfs`.
pub fn fsync(fs: &FileSystem, fdt: &FdTable, fd: usize) -> (r: Result<u64, isize>)
    requires
        fs.wf(),
    ensures
        match syncfs_target(fs, fdt@, fd) {
            Ok(m) => r == Ok::<u64, isize>(m),
            Err(e) => r == Err::<u64, isize>(err_ret(e)),
        },
{
    syncfs(fs, fdt, fd)
}

/// `fdatasync`: the same as `fsync`.
pub fn fdatasync(fs: &FileSystem, fdt: &FdTable, fd: usize) -> (r: Result<u64, isize>)
    requires
        fs.wf(),
    ensures
        match syncfs_target(fs, fdt@, fd) {
            Ok(m) => r == Ok::<u64, isize>(m),
            Err(e) => r == Err::<u64, isize>(err_ret(e)),
        },
{
    fsync(fs, fdt, fd)
}

} // verus!
