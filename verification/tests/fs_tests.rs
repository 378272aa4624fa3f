use comix_kernel::errno::FsError;
use comix_kernel::fd_table::FdTable;
use comix_kernel::file::{FileSystem, FsStruct, FsType, O_CREAT, O_RDWR, O_RDONLY, O_WRONLY, O_APPEND, O_DIRECTORY};
use comix_kernel::vfs::{InodeType, Vfs, ROOT_INO};
use comix_kernel::syscall::path::{split_path, AT_FDCWD, AT_REMOVEDIR};
use comix_kernel::syscall::fs::{openat, mkdirat, unlinkat, renameat2, lseek, close, SEEK_SET, SEEK_END, RENAME_EXCHANGE, RENAME_NOREPLACE};
use comix_kernel::syscall::io::{read, IoOutcome};
use comix_kernel::syscall::dirent::{getdents64, pack_dirents};
use comix_kernel::syscall::mount::{get_first_block_device, flush_all_block_devices};

fn setup() -> (FileSystem, FsStruct, FdTable) {
    let fs = FileSystem::new(FsType::Tmpfs, Vec::new());
    let ctx = FsStruct::new(Some(ROOT_INO), Some(ROOT_INO));
    (fs, ctx, FdTable::new())
}

#[test]
fn split_path_separates_the_last_component() {
    let (d, n) = split_path(b"/a/b/c").unwrap();
    assert_eq!(d, b"/a/b".to_vec());
    assert_eq!(n, b"c".to_vec());
    let (d, n) = split_path(b"file").unwrap();
    assert_eq!(d, b".".to_vec());
    assert_eq!(n, b"file".to_vec());
    let (d, n) = split_path(b"/top//").unwrap();
    assert_eq!(d, b"/".to_vec());
    assert_eq!(n, b"top".to_vec());
    assert_eq!(split_path(b"/").err(), Some(FsError::InvalidArgument));
}

#[test]
fn vfs_create_lookup_unlink() {
    let mut v = Vfs::new(0o755);
    let d = v.create(ROOT_INO, b"etc", InodeType::Directory, 0o755, 0, b"").unwrap();
    assert_eq!(d, 1);
    let f = v.create(d, b"passwd", InodeType::File, 0o644, 0, b"").unwrap();
    assert_eq!(f, 2);
    assert_eq!(v.lookup_path(ROOT_INO, b"/etc/passwd", true), Ok(2));
    assert_eq!(v.lookup_path(ROOT_INO, b"/etc/../etc/./passwd", true), Ok(2));
    assert_eq!(v.create(d, b"passwd", InodeType::File, 0o644, 0, b"").err(), Some(FsError::AlreadyExists));
    assert_eq!(v.unlink(ROOT_INO, b"etc").err(), Some(FsError::NotEmpty));
    assert!(v.unlink(d, b"passwd").is_ok());
    assert_eq!(v.lookup_path(ROOT_INO, b"/etc/passwd", true).err(), Some(FsError::NotFound));
}

#[test]
fn vfs_symlink_is_followed_on_request() {
    let mut v = Vfs::new(0o755);
    let f = v.create(ROOT_INO, b"real", InodeType::File, 0o644, 0, b"").unwrap();
    let l = v.create(ROOT_INO, b"link", InodeType::Symlink, 0o777, 0, b"/real").unwrap();
    assert_eq!(v.lookup_path(ROOT_INO, b"/link", true), Ok(f));
    assert_eq!(v.lookup_path(ROOT_INO, b"/link", false), Ok(l));
}

#[test]
fn vfs_rename_moves_the_name() {
    let mut v = Vfs::new(0o755);
    let f = v.create(ROOT_INO, b"a", InodeType::File, 0o644, 0, b"").unwrap();
    assert!(v.rename(ROOT_INO, b"a", ROOT_INO, b"b").is_ok());
    assert_eq!(v.lookup_child(ROOT_INO, b"b"), Ok(f));
    assert_eq!(v.lookup_child(ROOT_INO, b"a").err(), Some(FsError::NotFound));
}

#[test]
fn readdir_lists_entries_in_creation_order() {
    let mut v = Vfs::new(0o755);
    v.create(ROOT_INO, b"x", InodeType::File, 0o644, 0, b"").unwrap();
    v.create(ROOT_INO, b"dir", InodeType::Directory, 0o755, 0, b"").unwrap();
    v.create(ROOT_INO, b"y", InodeType::File, 0o644, 0, b"").unwrap();
    let names: Vec<Vec<u8>> = v.readdir(ROOT_INO).into_iter().map(|(n, _)| n).collect();
    assert_eq!(names, vec![b"x".to_vec(), b"dir".to_vec(), b"y".to_vec()]);
}

#[test]
fn open_write_seek_read_round_trip() {
    let (mut fs, ctx, mut fdt) = setup();
    let fd = openat(&mut fs, &ctx, &mut fdt, AT_FDCWD, b"/notes", O_CREAT | O_RDWR, 0o644);
    assert_eq!(fd, 0);
    assert_eq!(comix_kernel::syscall::io::write(&mut fs, &fdt, 0, b"hello world"), IoOutcome::Done(11));
    assert_eq!(lseek(&mut fs, &fdt, 0, 6, SEEK_SET), 6);
    let (r, bytes) = read(&mut fs, &fdt, 0, 100);
    assert_eq!(r, IoOutcome::Done(5));
    assert_eq!(bytes, b"world".to_vec());
    assert_eq!(lseek(&mut fs, &fdt, 0, -1, SEEK_END), 10);
    assert_eq!(lseek(&mut fs, &fdt, 0, -20, SEEK_SET), -22);
    assert_eq!(close(&mut fdt, 0), 0);
    assert_eq!(close(&mut fdt, 0), -9);
}

#[test]
fn append_mode_writes_at_the_end() {
    let (mut fs, ctx, mut fdt) = setup();
    let fd = openat(&mut fs, &ctx, &mut fdt, AT_FDCWD, b"/log", O_CREAT | O_WRONLY, 0o644);
    assert_eq!(fd, 0);
    assert_eq!(comix_kernel::syscall::io::write(&mut fs, &fdt, 0, b"abc"), IoOutcome::Done(3));
    let fd2 = openat(&mut fs, &ctx, &mut fdt, AT_FDCWD, b"/log", O_WRONLY | O_APPEND, 0);
    assert_eq!(fd2, 1);
    assert_eq!(comix_kernel::syscall::io::write(&mut fs, &fdt, 1, b"de"), IoOutcome::Done(2));
    let fd3 = openat(&mut fs, &ctx, &mut fdt, AT_FDCWD, b"/log", O_RDONLY, 0);
    let (_, bytes) = read(&mut fs, &fdt, fd3 as usize, 10);
    assert_eq!(bytes, b"abcde".to_vec());
    assert_eq!(comix_kernel::syscall::io::write(&mut fs, &fdt, fd3 as usize, b"x"), IoOutcome::Done(-9));
}

#[test]
fn open_missing_file_without_create_fails() {
    let (mut fs, ctx, mut fdt) = setup();
    assert_eq!(openat(&mut fs, &ctx, &mut fdt, AT_FDCWD, b"/missing", O_RDONLY, 0), -2);
}

#[test]
fn mkdir_unlink_and_rmdir() {
    let (mut fs, ctx, mut fdt) = setup();
    assert_eq!(mkdirat(&mut fs, &ctx, &fdt, AT_FDCWD, b"/d", 0o755), 0);
    assert_eq!(mkdirat(&mut fs, &ctx, &fdt, AT_FDCWD, b"/d", 0o755), -17);
    let fd = openat(&mut fs, &ctx, &mut fdt, AT_FDCWD, b"/d/f", O_CREAT | O_RDWR, 0o644);
    assert_eq!(fd, 0);
    assert_eq!(unlinkat(&mut fs, &ctx, &fdt, AT_FDCWD, b"/d", AT_REMOVEDIR), -39);
    assert_eq!(unlinkat(&mut fs, &ctx, &fdt, AT_FDCWD, b"/d/f", 0), 0);
    assert_eq!(unlinkat(&mut fs, &ctx, &fdt, AT_FDCWD, b"/d", AT_REMOVEDIR), 0);
}

#[test]
fn renameat2_exchange_swaps_two_names() {
    let (mut fs, ctx, mut fdt) = setup();
    openat(&mut fs, &ctx, &mut fdt, AT_FDCWD, b"/a", O_CREAT | O_RDWR, 0o644);
    openat(&mut fs, &ctx, &mut fdt, AT_FDCWD, b"/b", O_CREAT | O_RDWR, 0o644);
    let ia = fs.vfs.lookup_child(ROOT_INO, b"a").unwrap();
    let ib = fs.vfs.lookup_child(ROOT_INO, b"b").unwrap();
    assert_eq!(renameat2(&mut fs, &ctx, &fdt, AT_FDCWD, b"/a", AT_FDCWD, b"/b", RENAME_EXCHANGE), 0);
    assert_eq!(fs.vfs.lookup_child(ROOT_INO, b"a"), Ok(ib));
    assert_eq!(fs.vfs.lookup_child(ROOT_INO, b"b"), Ok(ia));
    assert_eq!(renameat2(&mut fs, &ctx, &fdt, AT_FDCWD, b"/a", AT_FDCWD, b"/b", RENAME_NOREPLACE), -17);
    assert_eq!(renameat2(&mut fs, &ctx, &fdt, AT_FDCWD, b"/a", AT_FDCWD, b"/b", RENAME_NOREPLACE | RENAME_EXCHANGE), -22);
}

#[test]
fn getdents64_packs_records_and_moves_the_offset() {
    let (mut fs, ctx, mut fdt) = setup();
    openat(&mut fs, &ctx, &mut fdt, AT_FDCWD, b"/ab", O_CREAT | O_RDWR, 0o644);
    mkdirat(&mut fs, &ctx, &fdt, AT_FDCWD, b"/sub", 0o755);
    let dfd = openat(&mut fs, &ctx, &mut fdt, AT_FDCWD, b"/", O_RDONLY | O_DIRECTORY, 0) as usize;
    // Each record: 19 bytes of header, the name and a NUL, rounded to 8.
    let (n, bytes) = getdents64(&mut fs, &fdt, dfd, false, 24);
    assert_eq!(n, 24);
    assert_eq!(&bytes[0..8], &1u64.to_le_bytes());
    assert_eq!(&bytes[8..16], &1u64.to_le_bytes());
    assert_eq!(&bytes[16..18], &24u16.to_le_bytes());
    assert_eq!(bytes[18], 8);
    assert_eq!(&bytes[19..21], b"ab");
    assert_eq!(&bytes[21..24], &[0, 0, 0]);
    let (n2, bytes2) = getdents64(&mut fs, &fdt, dfd, false, 100);
    assert_eq!(n2, 24);
    assert_eq!(bytes2[18], 4);
    assert_eq!(&bytes2[19..22], b"sub");
    let (n3, _) = getdents64(&mut fs, &fdt, dfd, false, 100);
    assert_eq!(n3, 0);
    assert_eq!(getdents64(&mut fs, &fdt, dfd, true, 100).0, -22);
    assert_eq!(getdents64(&mut fs, &fdt, 99, false, 100).0, -9);
}

#[test]
fn getdents64_on_a_file_is_not_a_directory() {
    let (mut fs, ctx, mut fdt) = setup();
    let fd = openat(&mut fs, &ctx, &mut fdt, AT_FDCWD, b"/f", O_CREAT | O_RDWR, 0o644) as usize;
    assert_eq!(getdents64(&mut fs, &fdt, fd, false, 100).0, -20);
}

#[test]
fn pack_dirents_stops_at_the_first_record_that_does_not_fit() {
    let ents = vec![(b"a".to_vec(), 5u64, 8u8), (b"long-name-here".to_vec(), 6, 8), (b"b".to_vec(), 7, 8)];
    let (bytes, n) = pack_dirents(&ents, 0, 40);
    assert_eq!(n, 1);
    assert_eq!(bytes.len(), 24);
    let (bytes, n) = pack_dirents(&ents, 2, 40);
    assert_eq!(n, 1);
    assert_eq!(&bytes[8..16], &3u64.to_le_bytes());
    let (_, n) = pack_dirents(&ents, 0, 0);
    assert_eq!(n, 0);
}

#[test]
fn block_device_helpers() {
    let none: Vec<comix_kernel::file::BlockDevice> = Vec::new();
    assert_eq!(get_first_block_device(&none).err(), Some(-19));
    let devs = vec![comix_kernel::file::BlockDevice { name: b"vda".to_vec(), ext4: true }];
    assert_eq!(get_first_block_device(&devs).unwrap().name, b"vda".to_vec());
    assert_eq!(flush_all_block_devices(&vec![]), Ok(()));
    assert_eq!(flush_all_block_devices(&vec![true, true]), Ok(()));
    assert_eq!(flush_all_block_devices(&vec![true, false, true]), Err(-5));
}
