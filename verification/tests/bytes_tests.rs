use memfs::bytes::{copy_bytes, fill_pattern, increment_bytes};

#[test]
fn fill_pattern_repeats_every_256_bytes() {
    let v = fill_pattern(300);
    assert_eq!(v.len(), 300);
    assert_eq!(v[0], 0);
    assert_eq!(v[1], 1);
    assert_eq!(v[255], 255);
    assert_eq!(v[256], 0);
    assert_eq!(v[299], 43);
}

#[test]
fn fill_pattern_empty() {
    assert_eq!(fill_pattern(0), Vec::<u8>::new());
}

#[test]
fn copy_bytes_copies_everything() {
    let src = fill_pattern(64);
    let mut dst = vec![0u8; 64];
    copy_bytes(&src, &mut dst);
    assert_eq!(dst, src);
}

#[test]
fn increment_bytes_wraps_around() {
    let mut v = vec![0u8, 1, 41, 255];
    increment_bytes(&mut v);
    assert_eq!(v, vec![1u8, 2, 42, 0]);
}
