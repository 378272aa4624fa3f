use comix_kernel::exec_loader::{AreaType, LoadPlan, SegmentMap, ExecImageError, PagingError};
use comix_kernel::reloc::{UserImage, fill_segment, load_segments};
use comix_kernel::fd_table::FdTable;
use comix_kernel::file::{BlockDevice, FileSystem, FsStruct, FsType, O_CREAT, O_RDWR};
use comix_kernel::vfs::{InodeType, ROOT_INO};
use comix_kernel::syscall::fcntl::{fcntl, FcntlOutcome, F_SETLK, F_GETLK};
use comix_kernel::syscall::fs::openat;
use comix_kernel::syscall::mount::mount;
use comix_kernel::syscall::path::AT_FDCWD;
use comix_kernel::syscall::ifaddrs::{freeifaddrs, IFADDRS_ALLOC_MAGIC};

fn seg(start: u64, end: u64, off: u64, filesz: u64) -> SegmentMap {
    SegmentMap { start, end, perm: 4, area: AreaType::UserText, file_offset: off, filesz }
}

#[test]
fn fill_segment_copies_file_bytes_then_zeros() {
    let mut img = UserImage { base: 0x1000, bytes: vec![0xaa; 16] };
    let file = [1u8, 2, 3, 4, 5, 6];
    assert!(fill_segment(&mut img, &file, seg(0x1004, 0x100a, 2, 3)).is_ok());
    assert_eq!(img.bytes, vec![0xaa, 0xaa, 0xaa, 0xaa, 3, 4, 5, 0, 0, 0, 0xaa, 0xaa, 0xaa, 0xaa, 0xaa, 0xaa]);
    let r = fill_segment(&mut img, &file, seg(0x100c, 0x1020, 0, 1));
    assert_eq!(r, Err(ExecImageError::Paging(PagingError::InvalidAddress)));
    assert_eq!(img.bytes[12], 0xaa);
}

#[test]
fn load_segments_applies_each_segment_in_order() {
    let mut img = UserImage { base: 0, bytes: vec![9; 8] };
    let file = [7u8, 8];
    let plan = LoadPlan {
        bias: 0, entry: 0, phdr_addr: 0, phnum: 2, phent: 56, max_end: 8,
        segments: vec![seg(0, 4, 0, 2), seg(6, 8, 1, 1)],
    };
    assert!(load_segments(&mut img, &file, &plan).is_ok());
    assert_eq!(img.bytes, vec![7, 8, 0, 0, 9, 9, 8, 0]);
}

#[test]
fn mount_ignores_type_and_source_and_uses_the_first_device() {
    let devs = || vec![BlockDevice { name: b"vda".to_vec(), ext4: true }, BlockDevice { name: b"vdb".to_vec(), ext4: true }];
    let mut fs1 = FileSystem::new(FsType::Tmpfs, devs());
    let mnt = fs1.vfs.create(ROOT_INO, b"mnt", InodeType::Directory, 0o755, 0, b"").unwrap();
    let mut fs2 = FileSystem::new(FsType::Tmpfs, devs());
    fs2.vfs.create(ROOT_INO, b"mnt", InodeType::Directory, 0o755, 0, b"").unwrap();
    assert_eq!(mount(&mut fs1, b"/dev/vdb", b"/mnt", b"ext4"), 0);
    assert_eq!(mount(&mut fs2, b"whatever", b"/mnt", b"xfs"), 0);
    assert_eq!(fs1.mounts.get(&mnt).unwrap().source, b"vda".to_vec());
    assert_eq!(fs2.mounts.get(&mnt).unwrap().source, b"vda".to_vec());
    let mut none = FileSystem::new(FsType::Tmpfs, Vec::new());
    none.vfs.create(ROOT_INO, b"mnt", InodeType::Directory, 0o755, 0, b"").unwrap();
    assert_eq!(mount(&mut none, b"", b"/mnt", b"ext4"), -2);
    assert_eq!(mount(&mut none, b"", b"/mnt", b"xfs"), -2);
}

#[test]
fn fcntl_lock_commands_refuse_a_null_argument() {
    let mut fs = FileSystem::new(FsType::Tmpfs, Vec::new());
    let ctx = FsStruct::new(Some(ROOT_INO), Some(ROOT_INO));
    let mut fdt = FdTable::new();
    let fd = openat(&mut fs, &ctx, &mut fdt, AT_FDCWD, b"/f", O_CREAT | O_RDWR, 0o644) as usize;
    assert_eq!(fcntl(&mut fs, &mut fdt, fd, F_SETLK, 0), FcntlOutcome::Done(-22));
    assert_eq!(fcntl(&mut fs, &mut fdt, 99, F_GETLK, 0), FcntlOutcome::Done(-22));
    assert!(matches!(fcntl(&mut fs, &mut fdt, fd, F_GETLK, 0x1000), FcntlOutcome::Lock(_)));
}

#[test]
fn freeifaddrs_checks_pointer_header_and_unmapping() {
    assert_eq!(freeifaddrs(0, (0, 0), 0), 0);
    assert_eq!(freeifaddrs(8, (IFADDRS_ALLOC_MAGIC, 4096), 0), -22);
    assert_eq!(freeifaddrs(0x10010, (1, 4096), 0), -22);
    assert_eq!(freeifaddrs(0x10010, (IFADDRS_ALLOC_MAGIC, 4096), -22), -22);
    assert_eq!(freeifaddrs(0x10010, (IFADDRS_ALLOC_MAGIC, 4096), 0), 0);
}
