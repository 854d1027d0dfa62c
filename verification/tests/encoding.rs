use vote_relay::abi::{encode_vote_call, vote_selector};
use vote_relay::encoder::{encode, split_votes};
use vote_relay::error::ContractError;
use vote_relay::msg::Vote;
use vote_relay::uint256::Uint256;

fn gauge(byte: &str) -> String {
    format!("0x{}", byte.repeat(20))
}

fn word(value: u64) -> Vec<u8> {
    let mut bytes = vec![0u8; 24];
    bytes.extend_from_slice(&value.to_be_bytes());
    bytes
}

fn batch(n: usize) -> Vec<Vote> {
    (0..n)
        .map(|i| Vote {
            gauge_address: format!("0x{:040x}", (i as u128 + 1) * 0x0101_0101),
            user_weight: Uint256::from_u128(1000 * i as u128 + 7),
        })
        .collect()
}

#[allow(deprecated)]
fn reference_encoding(votes: &[Vote]) -> Vec<u8> {
    let function = ethabi::Function {
        name: "vote".to_string(),
        inputs: vec![
            ethabi::Param {
                name: "_gauge_addr".to_string(),
                kind: ethabi::ParamType::Array(Box::new(ethabi::ParamType::Address)),
                internal_type: None,
            },
            ethabi::Param {
                name: "_user_weight".to_string(),
                kind: ethabi::ParamType::Array(Box::new(ethabi::ParamType::Uint(256))),
                internal_type: None,
            },
        ],
        outputs: Vec::new(),
        constant: None,
        state_mutability: ethabi::StateMutability::NonPayable,
    };
    let addresses = votes
        .iter()
        .map(|vote| ethabi::Token::Address(vote.gauge_address.parse().unwrap()))
        .collect();
    let weights = votes
        .iter()
        .map(|vote| {
            ethabi::Token::Uint(ethabi::Uint::from_big_endian(&vote.user_weight.to_be_bytes()))
        })
        .collect();
    function
        .encode_input(&[ethabi::Token::Array(addresses), ethabi::Token::Array(weights)])
        .unwrap()
}

#[test]
fn selector_is_keccak_of_vote_signature() {
    assert_eq!(vote_selector(), [0x6f, 0x81, 0x6a, 0x20]);
}

#[test]
fn encode_one_vote_exact_bytes() {
    let votes =
        vec![Vote { gauge_address: gauge("11"), user_weight: Uint256::from_u128(100) }];
    let mut expected = vec![0x6f, 0x81, 0x6a, 0x20];
    expected.extend(word(64));
    expected.extend(word(128));
    expected.extend(word(1));
    expected.extend(vec![0u8; 12]);
    expected.extend(vec![0x11u8; 20]);
    expected.extend(word(1));
    expected.extend(word(100));
    assert_eq!(encode(&votes), Ok(expected));
}

#[test]
fn encode_two_votes_exact_bytes() {
    let votes = vec![
        Vote { gauge_address: gauge("aa"), user_weight: Uint256::from_u128(1) },
        Vote { gauge_address: gauge("bb"), user_weight: Uint256::from_u128(0x0203) },
    ];
    let mut expected = vec![0x6f, 0x81, 0x6a, 0x20];
    expected.extend(word(64));
    expected.extend(word(160));
    expected.extend(word(2));
    expected.extend(vec![0u8; 12]);
    expected.extend(vec![0xaau8; 20]);
    expected.extend(vec![0u8; 12]);
    expected.extend(vec![0xbbu8; 20]);
    expected.extend(word(2));
    expected.extend(word(1));
    expected.extend(word(0x0203));
    assert_eq!(encode(&votes), Ok(expected));
}

#[test]
fn encode_keeps_the_order_of_the_votes() {
    let forward = vec![
        Vote { gauge_address: gauge("aa"), user_weight: Uint256::from_u128(1) },
        Vote { gauge_address: gauge("bb"), user_weight: Uint256::from_u128(2) },
    ];
    let backward = vec![forward[1].clone(), forward[0].clone()];
    let a = encode(&forward).unwrap();
    let b = encode(&backward).unwrap();
    assert_ne!(a, b);
    assert_eq!(&a[100..132], &b[132..164]);
    assert_eq!(&a[196..228], &b[228..260]);
}

#[test]
fn encode_twice_gives_the_same_bytes() {
    for n in 1..6 {
        let votes = batch(n);
        assert_eq!(encode(&votes), encode(&votes));
        assert_eq!(encode(&votes), encode(&votes.clone()));
    }
}

#[test]
fn encode_size_law() {
    for n in 1..40 {
        let votes = batch(n);
        assert_eq!(encode(&votes).unwrap().len(), 4 + 64 + 32 * 2 + 32 * n * 2);
    }
}

#[test]
fn encode_empty_batch_is_head_and_two_lengths() {
    let mut expected = vec![0x6f, 0x81, 0x6a, 0x20];
    expected.extend(word(64));
    expected.extend(word(96));
    expected.extend(word(0));
    expected.extend(word(0));
    assert_eq!(encode(&Vec::new()), Ok(expected));
}

#[test]
fn encode_boundary_weights() {
    let votes = vec![
        Vote { gauge_address: gauge("11"), user_weight: Uint256::max_value() },
        Vote { gauge_address: gauge("22"), user_weight: Uint256::from_u128(0) },
    ];
    let encoded = encode(&votes).unwrap();
    let weights = &encoded[encoded.len() - 64..];
    assert_eq!(&weights[..32], &[0xffu8; 32]);
    assert_eq!(&weights[32..], &[0u8; 32]);
}

#[test]
fn encode_rejects_an_invalid_address() {
    let votes = vec![
        Vote { gauge_address: gauge("11"), user_weight: Uint256::from_u128(1) },
        Vote { gauge_address: "0x1234".to_string(), user_weight: Uint256::from_u128(2) },
        Vote { gauge_address: gauge("33"), user_weight: Uint256::from_u128(3) },
    ];
    assert_eq!(encode(&votes), Err(ContractError::InvalidAddress));
    assert_eq!(split_votes(&votes), Err(ContractError::InvalidAddress));
}

#[test]
fn split_votes_gives_parallel_arrays() {
    let votes = vec![
        Vote { gauge_address: gauge("aa"), user_weight: Uint256::from_u128(5) },
        Vote { gauge_address: gauge("bb"), user_weight: Uint256::from_u128(6) },
    ];
    let (addresses, weights) = split_votes(&votes).unwrap();
    assert_eq!(addresses, vec![[0xaau8; 20], [0xbbu8; 20]]);
    assert_eq!(weights, vec![Uint256::from_u128(5), Uint256::from_u128(6)]);
}

#[test]
fn encode_vote_call_lays_out_head_and_tails() {
    let call = encode_vote_call(
        &[1, 2, 3, 4],
        &vec![[0x11u8; 20], [0x22u8; 20], [0x33u8; 20]],
        &vec![Uint256::from_u128(9)],
    );
    let mut expected = vec![1, 2, 3, 4];
    expected.extend(word(64));
    expected.extend(word(96 + 32 * 3));
    expected.extend(word(3));
    for byte in [0x11u8, 0x22, 0x33] {
        expected.extend(vec![0u8; 12]);
        expected.extend(vec![byte; 20]);
    }
    expected.extend(word(1));
    expected.extend(word(9));
    assert_eq!(call, expected);
}

#[test]
fn encode_agrees_with_ethabi() {
    for n in 0..20 {
        let votes = batch(n);
        assert_eq!(encode(&votes).unwrap(), reference_encoding(&votes));
    }
    let edge = vec![
        Vote { gauge_address: gauge("ff"), user_weight: Uint256::max_value() },
        Vote { gauge_address: gauge("00"), user_weight: Uint256::from_u128(0) },
        Vote { gauge_address: gauge("7f"), user_weight: Uint256::from_u128(u128::MAX) },
    ];
    assert_eq!(encode(&edge).unwrap(), reference_encoding(&edge));
}
