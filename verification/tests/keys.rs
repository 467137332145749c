use object_store_rs::key::object_key;

#[test]
fn key_zero() {
    assert_eq!(object_key(0), "0000000000.dbin.zst");
}

#[test]
fn key_padded() {
    assert_eq!(object_key(12345), "0000012345.dbin.zst");
}

#[test]
fn key_stride_step() {
    assert_eq!(object_key(100), "0000000100.dbin.zst");
}

#[test]
fn key_largest_ten_digit() {
    assert_eq!(object_key(9_999_999_999), "9999999999.dbin.zst");
}

#[test]
fn key_beyond_ten_digits_is_unpadded() {
    assert_eq!(object_key(10_000_000_000), "10000000000.dbin.zst");
}

#[test]
fn key_largest_block_number() {
    assert_eq!(object_key(u64::MAX), "18446744073709551615.dbin.zst");
}
