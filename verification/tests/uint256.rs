use vote_relay::uint256::{word_of_u128, Uint256};

#[test]
fn from_u128_is_big_endian() {
    let mut expected = [0u8; 32];
    expected[31] = 100;
    assert_eq!(Uint256::from_u128(100).to_be_bytes(), expected);

    let mut expected = [0u8; 32];
    expected[30] = 0x01;
    expected[31] = 0x02;
    assert_eq!(Uint256::from_u128(0x0102).to_be_bytes(), expected);
}

#[test]
fn from_u128_largest_fills_low_half() {
    let mut expected = [0u8; 32];
    for byte in expected[16..].iter_mut() {
        *byte = 0xff;
    }
    assert_eq!(Uint256::from_u128(u128::MAX).to_be_bytes(), expected);
}

#[test]
fn zero_is_all_zero_bytes() {
    assert_eq!(Uint256::from_u128(0).to_be_bytes(), [0u8; 32]);
}

#[test]
fn max_value_is_all_ones() {
    assert_eq!(Uint256::max_value().to_be_bytes(), [0xffu8; 32]);
    assert_eq!(Uint256::max_value(), Uint256::from_be_bytes([0xffu8; 32]));
}

#[test]
fn be_bytes_round_trip() {
    let mut bytes = [0u8; 32];
    for (i, byte) in bytes.iter_mut().enumerate() {
        *byte = (i as u8).wrapping_mul(7).wrapping_add(3);
    }
    assert_eq!(Uint256::from_be_bytes(bytes).to_be_bytes(), bytes);
}

#[test]
fn from_u128_agrees_with_from_be_bytes() {
    let value: u128 = 0x0123_4567_89ab_cdef_fedc_ba98_7654_3210;
    let mut bytes = [0u8; 32];
    bytes[16..].copy_from_slice(&value.to_be_bytes());
    assert_eq!(Uint256::from_u128(value), Uint256::from_be_bytes(bytes));
    assert_eq!(word_of_u128(value), bytes);
}
