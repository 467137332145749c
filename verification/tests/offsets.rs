use object_store_rs::error::StoreError;
use object_store_rs::offset::read_block_offset;

#[test]
fn offset_zero() {
    assert!(matches!(read_block_offset("0"), Ok(0)));
}

#[test]
fn offset_plain_number() {
    assert!(matches!(read_block_offset("12345"), Ok(12345)));
}

#[test]
fn offset_leading_plus() {
    assert!(matches!(read_block_offset("+7"), Ok(7)));
}

#[test]
fn offset_leading_zeros() {
    assert!(matches!(read_block_offset("007"), Ok(7)));
}

#[test]
fn offset_largest() {
    assert!(matches!(read_block_offset("18446744073709551615"), Ok(u64::MAX)));
}

#[test]
fn offset_overflow_is_rejected() {
    match read_block_offset("18446744073709551616") {
        Err(StoreError::Configuration(m)) => assert_eq!(m, "18446744073709551616"),
        _ => panic!("an offset too large for a machine word must be rejected"),
    }
}

#[test]
fn offset_text_is_configuration_error() {
    match read_block_offset("abc") {
        Err(StoreError::Configuration(m)) => assert_eq!(m, "abc"),
        _ => panic!("a non-numeric offset must be a configuration error"),
    }
}

#[test]
fn offset_empty_is_rejected() {
    assert!(matches!(read_block_offset(""), Err(StoreError::Configuration(_))));
}

#[test]
fn offset_lone_plus_is_rejected() {
    assert!(matches!(read_block_offset("+"), Err(StoreError::Configuration(_))));
}

#[test]
fn offset_negative_is_rejected() {
    assert!(matches!(read_block_offset("-1"), Err(StoreError::Configuration(_))));
}

#[test]
fn offset_inner_space_is_rejected() {
    assert!(matches!(read_block_offset("1 2"), Err(StoreError::Configuration(_))));
}
