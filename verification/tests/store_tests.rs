use memfs::store::{FsError, MemFile, FILE_CAPACITY};

#[test]
fn write_then_read_round_trip() {
    let mut f = MemFile::with_capacity(64);
    let r = f.write(5, b"hello");
    assert_eq!(r, Ok(5));
    assert_eq!(f.snapshot_len(), 10);
    assert_eq!(f.read(5, 5), b"hello".to_vec());
}

#[test]
fn read_at_or_past_length_is_empty() {
    let mut f = MemFile::with_capacity(16);
    assert_eq!(f.write(0, b"abc"), Ok(3));
    assert_eq!(f.read(3, 10), Vec::<u8>::new());
    assert_eq!(f.read(100, 1), Vec::<u8>::new());
    assert_eq!(f.read(3, 0), Vec::<u8>::new());
}

#[test]
fn read_clamps_to_length() {
    let mut f = MemFile::with_capacity(16);
    assert_eq!(f.write(0, b"abcdef"), Ok(6));
    assert_eq!(f.read(2, 100), b"cdef".to_vec());
    assert_eq!(f.read(0, 2), b"ab".to_vec());
}

#[test]
fn write_out_of_space_changes_nothing() {
    let mut f = MemFile::with_capacity(8);
    assert_eq!(f.write(0, b"abc"), Ok(3));
    assert_eq!(f.write(6, b"xyz"), Err(FsError::OutOfSpace));
    assert_eq!(f.snapshot_len(), 3);
    assert_eq!(f.read(0, 8), b"abc".to_vec());
}

#[test]
fn write_up_to_capacity_fits_exactly() {
    let mut f = MemFile::with_capacity(8);
    assert_eq!(f.write(0, b"12345678"), Ok(8));
    assert_eq!(f.snapshot_len(), 8);
    assert_eq!(f.write(8, b"9"), Err(FsError::OutOfSpace));
}

#[test]
fn write_within_length_does_not_shrink() {
    let mut f = MemFile::with_capacity(8);
    assert_eq!(f.write(0, b"abcdef"), Ok(6));
    assert_eq!(f.write(1, b"X"), Ok(1));
    assert_eq!(f.snapshot_len(), 6);
    assert_eq!(f.read(0, 8), b"aXcdef".to_vec());
}

#[test]
fn truncate_too_large_changes_nothing() {
    let mut f = MemFile::with_capacity(8);
    assert_eq!(f.write(0, b"abcde"), Ok(5));
    assert_eq!(f.truncate(9), Err(FsError::TooLarge));
    assert_eq!(f.snapshot_len(), 5);
    assert_eq!(f.truncate(2), Ok(()));
    assert_eq!(f.snapshot_len(), 2);
    assert_eq!(f.read(0, 8), b"ab".to_vec());
}

#[test]
fn truncate_extension_exposes_stale_bytes() {
    let mut f = MemFile::with_capacity(8);
    assert_eq!(f.write(0, b"ab"), Ok(2));
    f.reset();
    assert_eq!(f.snapshot_len(), 0);
    assert_eq!(f.truncate(2), Ok(()));
    // the buffer is not re-zeroed on truncation: the old bytes reappear
    assert_eq!(f.read(0, 2), b"ab".to_vec());
}

#[test]
fn fresh_store_is_zeroed() {
    let mut f = MemFile::with_capacity(4);
    assert_eq!(f.snapshot_len(), 0);
    assert_eq!(f.read(0, 4), Vec::<u8>::new());
    assert_eq!(f.truncate(4), Ok(()));
    assert_eq!(f.read(0, 4), vec![0u8, 0, 0, 0]);
}

#[test]
fn reset_clears_length_only() {
    let mut f = MemFile::with_capacity(8);
    assert_eq!(f.write(0, b"abc"), Ok(3));
    f.reset();
    assert_eq!(f.snapshot_len(), 0);
    assert_eq!(f.capacity_bytes(), 8);
    assert_eq!(f.read(0, 8), Vec::<u8>::new());
}

#[test]
fn default_store_has_one_gibibyte() {
    let f = MemFile::new();
    assert_eq!(f.capacity_bytes(), FILE_CAPACITY);
    assert_eq!(FILE_CAPACITY, 1024 * 1024 * 1024);
    assert_eq!(f.snapshot_len(), 0);
}
