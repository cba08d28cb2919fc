use anchor_cnft_transfer::codec::{push_le, push_raw, read_hash, read_le};

#[test]
fn push_le_writes_least_significant_byte_first() {
    let mut out: Vec<u8> = vec![0xaa];
    push_le(&mut out, 0x0102_0304_0506_0708, 8);
    assert_eq!(out, vec![0xaa, 8, 7, 6, 5, 4, 3, 2, 1]);
}

#[test]
fn push_le_keeps_only_the_low_bytes() {
    let mut out: Vec<u8> = Vec::new();
    push_le(&mut out, 0x0102_0304_0506_0708, 4);
    assert_eq!(out, vec![8, 7, 6, 5]);
    push_le(&mut out, 0xffff, 0);
    assert_eq!(out, vec![8, 7, 6, 5]);
    push_le(&mut out, 0x1234, 1);
    assert_eq!(out, vec![8, 7, 6, 5, 0x34]);
}

#[test]
fn push_raw_appends_unchanged() {
    let mut out: Vec<u8> = vec![1, 2];
    push_raw(&mut out, &[9, 8, 7]);
    push_raw(&mut out, &[]);
    assert_eq!(out, vec![1, 2, 9, 8, 7]);
}

#[test]
fn read_le_inverts_push_le() {
    let mut out: Vec<u8> = vec![0x55, 0x66];
    push_le(&mut out, 0xfedc_ba98_7654_3210, 8);
    push_le(&mut out, 0x89ab_cdef, 4);
    assert_eq!(read_le(&out, 2, 8), 0xfedc_ba98_7654_3210);
    assert_eq!(read_le(&out, 10, 4), 0x89ab_cdef);
    assert_eq!(read_le(&out, 0, 2), 0x6655);
    assert_eq!(read_le(&out, 3, 0), 0);
}

#[test]
fn read_le_agrees_with_std() {
    let bytes: [u8; 8] = [0x01, 0x23, 0x45, 0x67, 0x89, 0xab, 0xcd, 0xef];
    assert_eq!(read_le(&bytes, 0, 8), u64::from_le_bytes(bytes));
    assert_eq!(read_le(&[0xff; 8], 0, 8), u64::MAX);
}

#[test]
fn read_hash_copies_thirty_two_bytes() {
    let data: Vec<u8> = (0u8..40).collect();
    let hash = read_hash(&data, 5);
    let expected: Vec<u8> = (5u8..37).collect();
    assert_eq!(hash.to_vec(), expected);
}
