use memfs::fs::{FileKind, MemFS, FILE_INODE, ROOT_INODE, TTL_SECS};
use memfs::store::FsError;

#[test]
fn scenario_sixteen_byte_capacity() {
    let mut fs = MemFS::with_config(16, 0, 0);

    assert_eq!(fs.write(FILE_INODE, 0, b"hello"), Ok(5));
    assert_eq!(fs.getattr(FILE_INODE).unwrap().size, 5);

    // offset 5 + 11 bytes lands exactly on the 16-byte capacity
    assert_eq!(fs.write(FILE_INODE, 5, b"world!!!!!!"), Ok(11));
    assert_eq!(fs.getattr(FILE_INODE).unwrap().size, 16);

    assert_eq!(fs.write(FILE_INODE, 16, b"x"), Err(FsError::OutOfSpace));
    assert_eq!(fs.getattr(FILE_INODE).unwrap().size, 16);

    assert_eq!(fs.read(FILE_INODE, 0, 16), Ok(b"helloworld!!!!!!".to_vec()));

    assert_eq!(fs.unlink(ROOT_INODE, "test.txt"), Ok(()));
    assert_eq!(fs.getattr(FILE_INODE).unwrap().size, 0);

    // the identity persists: lookup still succeeds after unlink
    let attr = fs.lookup(ROOT_INODE, "test.txt").unwrap();
    assert_eq!(attr.ino, FILE_INODE);
    assert_eq!(attr.size, 0);
}

#[test]
fn listing_from_the_start_has_three_entries() {
    let fs = MemFS::with_config(16, 0, 0);
    let entries = fs.readdir(ROOT_INODE, 0).unwrap();
    assert_eq!(entries.len(), 3);

    assert_eq!(entries[0].ino, ROOT_INODE);
    assert_eq!(entries[0].offset, 1);
    assert_eq!(entries[0].kind, FileKind::Directory);
    assert_eq!(entries[0].name, ".");

    assert_eq!(entries[1].ino, ROOT_INODE);
    assert_eq!(entries[1].offset, 2);
    assert_eq!(entries[1].kind, FileKind::Directory);
    assert_eq!(entries[1].name, "..");

    assert_eq!(entries[2].ino, FILE_INODE);
    assert_eq!(entries[2].offset, 3);
    assert_eq!(entries[2].kind, FileKind::RegularFile);
    assert_eq!(entries[2].name, "test.txt");
}

#[test]
fn listing_is_resumable_by_offset() {
    let fs = MemFS::with_config(16, 0, 0);

    let entries = fs.readdir(ROOT_INODE, 2).unwrap();
    assert_eq!(entries.len(), 1);
    assert_eq!(entries[0].name, "test.txt");
    assert_eq!(entries[0].kind, FileKind::RegularFile);

    assert_eq!(fs.readdir(ROOT_INODE, 1).unwrap().len(), 2);
    assert_eq!(fs.readdir(ROOT_INODE, 3).unwrap().len(), 0);
    assert_eq!(fs.readdir(ROOT_INODE, 100).unwrap().len(), 0);

    assert_eq!(fs.readdir(FILE_INODE, 0), Err(FsError::NotFound));
    assert_eq!(fs.readdir(99, 0), Err(FsError::NotFound));
}

#[test]
fn lookup_resolves_only_the_well_known_name() {
    let fs = MemFS::with_config(16, 0, 0);

    let attr = fs.lookup(ROOT_INODE, "test.txt").unwrap();
    assert_eq!(attr.ino, FILE_INODE);
    assert_eq!(attr.kind, FileKind::RegularFile);

    assert_eq!(fs.lookup(ROOT_INODE, "other.txt"), Err(FsError::NotFound));
    assert_eq!(fs.lookup(ROOT_INODE, ""), Err(FsError::NotFound));
    assert_eq!(fs.lookup(FILE_INODE, "test.txt"), Err(FsError::NotFound));
}

#[test]
fn getattr_synthesizes_fixed_metadata() {
    let fs = MemFS::with_config(16, 1000, 1001);

    let root = fs.getattr(ROOT_INODE).unwrap();
    assert_eq!(root.ino, ROOT_INODE);
    assert_eq!(root.size, 0);
    assert_eq!(root.blocks, 0);
    assert_eq!(root.kind, FileKind::Directory);
    assert_eq!(root.perm, 0o755);
    assert_eq!(root.nlink, 2);
    assert_eq!(root.uid, 1000);
    assert_eq!(root.gid, 1001);
    assert_eq!(root.blksize, 512);

    let file = fs.getattr(FILE_INODE).unwrap();
    assert_eq!(file.ino, FILE_INODE);
    assert_eq!(file.size, 0);
    assert_eq!(file.blocks, 1);
    assert_eq!(file.kind, FileKind::RegularFile);
    assert_eq!(file.perm, 0o644);
    assert_eq!(file.nlink, 1);
    assert_eq!(file.uid, 1000);
    assert_eq!(file.gid, 1001);
    assert_eq!(file.blksize, 512);

    assert_eq!(fs.getattr(3), Err(FsError::NotFound));
    assert_eq!(fs.getattr(0), Err(FsError::NotFound));
}

#[test]
fn open_acknowledges_only_the_file() {
    let fs = MemFS::with_config(16, 0, 0);
    assert_eq!(fs.open(FILE_INODE, 42), Ok((0, 42)));
    assert_eq!(fs.open(ROOT_INODE, 0), Err(FsError::NotFound));
    assert_eq!(fs.open(7, 0), Err(FsError::NotFound));
}

#[test]
fn read_and_write_reject_other_identities() {
    let mut fs = MemFS::with_config(16, 0, 0);
    assert_eq!(fs.read(ROOT_INODE, 0, 4), Err(FsError::NotFound));
    assert_eq!(fs.read(9, 0, 4), Err(FsError::NotFound));
    assert_eq!(fs.write(ROOT_INODE, 0, b"a"), Err(FsError::NotFound));
    assert_eq!(fs.write(9, 0, b"a"), Err(FsError::NotFound));
}

#[test]
fn create_resets_length_whatever_the_prior_state() {
    let mut fs = MemFS::with_config(16, 0, 0);
    assert_eq!(fs.write(FILE_INODE, 0, b"abcdef"), Ok(6));

    let attr = fs.create(ROOT_INODE, "test.txt").unwrap();
    assert_eq!(attr.size, 0);
    assert_eq!(fs.getattr(FILE_INODE).unwrap().size, 0);
    assert_eq!(fs.read(FILE_INODE, 0, 16), Ok(Vec::new()));
}

#[test]
fn create_of_any_other_name_already_exists() {
    let mut fs = MemFS::with_config(16, 0, 0);
    assert_eq!(fs.write(FILE_INODE, 0, b"abc"), Ok(3));
    assert_eq!(fs.create(ROOT_INODE, "new.txt"), Err(FsError::AlreadyExists));
    assert_eq!(fs.create(FILE_INODE, "test.txt"), Err(FsError::AlreadyExists));
    // a rejected create mutates nothing
    assert_eq!(fs.getattr(FILE_INODE).unwrap().size, 3);
}

#[test]
fn unlink_resets_length_and_keeps_the_identity() {
    let mut fs = MemFS::with_config(16, 0, 0);
    assert_eq!(fs.write(FILE_INODE, 0, b"abc"), Ok(3));

    assert_eq!(fs.unlink(ROOT_INODE, "nope.txt"), Err(FsError::NotFound));
    assert_eq!(fs.getattr(FILE_INODE).unwrap().size, 3);

    assert_eq!(fs.unlink(ROOT_INODE, "test.txt"), Ok(()));
    assert_eq!(fs.getattr(FILE_INODE).unwrap().size, 0);
    assert!(fs.lookup(ROOT_INODE, "test.txt").is_ok());
}

#[test]
fn setattr_truncates_within_capacity_only() {
    let mut fs = MemFS::with_config(16, 0, 0);
    assert_eq!(fs.write(FILE_INODE, 0, b"abcdefgh"), Ok(8));

    assert_eq!(fs.setattr(FILE_INODE, Some(17)), Err(FsError::TooLarge));
    assert_eq!(fs.getattr(FILE_INODE).unwrap().size, 8);

    let attr = fs.setattr(FILE_INODE, Some(4)).unwrap();
    assert_eq!(attr.size, 4);
    assert_eq!(fs.read(FILE_INODE, 0, 16), Ok(b"abcd".to_vec()));

    let attr = fs.setattr(FILE_INODE, None).unwrap();
    assert_eq!(attr.size, 4);

    let attr = fs.setattr(FILE_INODE, Some(16)).unwrap();
    assert_eq!(attr.size, 16);

    assert_eq!(fs.setattr(ROOT_INODE, Some(1)), Err(FsError::NotFound));
    assert_eq!(fs.setattr(5, None), Err(FsError::NotFound));
}

#[test]
fn fresh_driver_buffer_reads_back_zeros() {
    let mut fs = MemFS::with_config(16, 0, 0);
    // extending the length of a fresh driver exposes the zero-initialized bytes
    assert_eq!(fs.setattr(FILE_INODE, Some(5)).unwrap().size, 5);
    assert_eq!(fs.read(FILE_INODE, 0, 16), Ok(vec![0u8; 5]));
}

#[test]
fn attribute_cache_window_is_one_second() {
    assert_eq!(TTL_SECS, 1);
}

#[test]
fn helper_attr_constructors_match_getattr() {
    let fs = MemFS::with_config(16, 3, 4);
    assert_eq!(fs.file_attr(), fs.getattr(FILE_INODE).unwrap());
    assert_eq!(fs.root_attr(), fs.getattr(ROOT_INODE).unwrap());
}
