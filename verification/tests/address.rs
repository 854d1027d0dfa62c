use vote_relay::address::{parse_address, to_hex};
use vote_relay::error::ContractError;

#[test]
fn parse_reads_prefixed_lower_case() {
    let text = format!("0x{}", "11".repeat(20));
    assert_eq!(parse_address(&text), Ok([0x11u8; 20]));
}

#[test]
fn parse_reads_each_byte_in_order() {
    let parsed = parse_address("0x000102030405060708090a0b0c0d0e0f10111213").unwrap();
    let mut expected = [0u8; 20];
    for (i, byte) in expected.iter_mut().enumerate() {
        *byte = i as u8;
    }
    assert_eq!(parsed, expected);
}

#[test]
fn parse_takes_upper_case_and_no_prefix() {
    let parsed = parse_address("DEADBEEFdeadbeefDEADBEEFdeadbeefDEADBEEF").unwrap();
    assert_eq!(&parsed[..4], &[0xde, 0xad, 0xbe, 0xef]);
    assert_eq!(&parsed[16..], &[0xde, 0xad, 0xbe, 0xef]);
}

#[test]
fn parse_skips_blanks_among_the_digits() {
    let text = format!(" 0{}\t1\r\n", "1 ".repeat(38));
    assert_eq!(parse_address(&text), Ok([0x01, 0x11, 0x11, 0x11, 0x11, 0x11, 0x11, 0x11, 0x11,
        0x11, 0x11, 0x11, 0x11, 0x11, 0x11, 0x11, 0x11, 0x11, 0x11, 0x11]));
    let spaced = format!("0x{} ", "ab ".repeat(20));
    assert_eq!(parse_address(&spaced), Ok([0xab; 20]));
}

#[test]
fn parse_rejects_short_text() {
    assert_eq!(parse_address("0x1234"), Err(ContractError::InvalidAddress));
    assert_eq!(parse_address(""), Err(ContractError::InvalidAddress));
    assert_eq!(parse_address("0x"), Err(ContractError::InvalidAddress));
    let odd = format!("0x{}1", "11".repeat(19));
    assert_eq!(parse_address(&odd), Err(ContractError::InvalidAddress));
}

#[test]
fn parse_rejects_long_text() {
    let long = format!("0x{}", "11".repeat(21));
    assert_eq!(parse_address(&long), Err(ContractError::InvalidAddress));
    let one_more = format!("0x{}1", "11".repeat(20));
    assert_eq!(parse_address(&one_more), Err(ContractError::InvalidAddress));
}

#[test]
fn parse_rejects_other_characters() {
    let bad = format!("0x{}zz", "11".repeat(19));
    assert_eq!(parse_address(&bad), Err(ContractError::InvalidAddress));
    let trailing = format!("0x{}!", "11".repeat(20));
    assert_eq!(parse_address(&trailing), Err(ContractError::InvalidAddress));
    let upper_prefix = format!("0X{}", "11".repeat(20));
    assert_eq!(parse_address(&upper_prefix), Err(ContractError::InvalidAddress));
    let twice = format!("0x0x{}", "11".repeat(20));
    assert_eq!(parse_address(&twice), Err(ContractError::InvalidAddress));
    let wide = format!("0x{}\u{e9}", "11".repeat(19));
    assert_eq!(parse_address(&wide), Err(ContractError::InvalidAddress));
}

#[test]
fn to_hex_writes_prefix_and_lower_case_digits() {
    assert_eq!(to_hex(&[0x11; 20]), format!("0x{}", "11".repeat(20)));
    let mut address = [0u8; 20];
    address[0] = 0xde;
    address[1] = 0xad;
    address[18] = 0x0f;
    address[19] = 0xf0;
    assert_eq!(to_hex(&address), "0xdead000000000000000000000000000000000ff0");
}

#[test]
fn parse_of_to_hex_is_identity() {
    let mut address = [0u8; 20];
    for seed in 0u8..=255 {
        for (i, byte) in address.iter_mut().enumerate() {
            *byte = seed.wrapping_mul(31).wrapping_add((i as u8).wrapping_mul(17));
        }
        assert_eq!(parse_address(&to_hex(&address)), Ok(address));
    }
    assert_eq!(parse_address(&to_hex(&[0u8; 20])), Ok([0u8; 20]));
    assert_eq!(parse_address(&to_hex(&[0xffu8; 20])), Ok([0xffu8; 20]));
}
