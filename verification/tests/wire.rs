use brink::wire::{
    pull_bytes, pull_cstring, pull_path, pull_u32, pull_u64, push_bytes, push_path, push_u32,
    push_u64,
};

#[test]
fn integers_are_little_endian() {
    let mut b = Vec::new();
    push_u32(&mut b, 0x0102_0304);
    push_u64(&mut b, 0x1112_1314_1516_1718);
    assert_eq!(b, [&0x0102_0304u32.to_le_bytes()[..], &0x1112_1314_1516_1718u64.to_le_bytes()[..]].concat());
    let mut p = 0;
    assert_eq!(pull_u32(&b, &mut p), Some(0x0102_0304));
    assert_eq!(p, 4);
    assert_eq!(pull_u64(&b, &mut p), Some(0x1112_1314_1516_1718));
    assert_eq!(p, 12);
    assert_eq!(pull_u32(&b, &mut p), None);
    assert_eq!(pull_u64(&b, &mut p), None);
}

#[test]
fn byte_strings_have_a_length() {
    let mut b = Vec::new();
    push_bytes(&mut b, b"ab");
    push_path(&mut b, &b"/x".to_vec());
    assert_eq!(b, vec![2, 0, 0, 0, b'a', b'b', 2, 0, 0, 0, b'/', b'x']);
    let mut p = 0;
    assert_eq!(pull_bytes(&b, &mut p), Some(b"ab".to_vec()));
    assert_eq!(pull_path(&b, &mut p), Some(b"/x".to_vec()));
    assert_eq!(pull_bytes(&b, &mut p), None);
}

#[test]
fn strings_with_zero_bytes_are_refused() {
    let mut b = Vec::new();
    push_bytes(&mut b, b"a\0b");
    let mut p = 0;
    assert_eq!(pull_cstring(&b, &mut p), None);
    let mut b = Vec::new();
    push_bytes(&mut b, b"ab");
    let mut p = 0;
    assert_eq!(pull_cstring(&b, &mut p), Some(b"ab".to_vec()));
}
