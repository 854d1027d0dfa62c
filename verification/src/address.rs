//! Gauge addresses: twenty bytes, written in hexadecimal.

use crate::error::ContractError;
use std::str::FromStr;
use vstd::prelude::*;

verus! {

/// A character that may stand anywhere among the digits of an address and
/// means nothing: a space, a tab, a line feed or a carriage return.
pub open spec fn is_blank(c: char) -> bool {
    c == ' ' || c == '\t' || c == '\n' || c == '\r'
}

/// The value of a hexadecimal digit of either case.
pub open spec fn hex_digit_value(c: char) -> Option<nat> {
    if '0' <= c <= '9' {
        Some((c as int - '0' as int) as nat)
    } else if 'a' <= c <= 'f' {
        Some((c as int - 'a' as int + 10) as nat)
    } else if 'A' <= c <= 'F' {
        Some((c as int - 'A' as int + 10) as nat)
    } else {
        None
    }
}

/// The lower-case hexadecimal digit for a value below sixteen.
pub open spec fn hex_char(value: nat) -> char {
    if value < 10 {
        ('0' as int + value) as char
    } else {
        ('a' as int + value - 10) as char
    }
}

/// `text` without one leading `0x`, where it has one.
pub open spec fn without_prefix(text: Seq<char>) -> Seq<char> {
    if text.len() >= 2 && text[0] == '0' && text[1] == 'x' {
        text.skip(2)
    } else {
        text
    }
}

/// The characters of `text` that count: what follows the optional `0x`,
/// blanks left out.
pub open spec fn significant_chars(text: Seq<char>) -> Seq<char> {
    without_prefix(text).filter(|c: char| !is_blank(c))
}

/// The byte that two hexadecimal digits spell.
pub open spec fn hex_pair_value(high: char, low: char) -> u8 {
    (16 * hex_digit_value(high).unwrap() + hex_digit_value(low).unwrap()) as u8
}

/// The address that `text` spells: `Some` exactly when the significant
/// characters of `text` are forty hexadecimal digits, and then the twenty
/// bytes they spell in order.
pub open spec fn parse_address_spec(text: Seq<char>) -> Option<Seq<u8>> {
    let digits = significant_chars(text);
    if digits.len() == 40
        && forall|i: int| 0 <= i < 40 ==> hex_digit_value(#[trigger] digits[i]) is Some {
        Some(Seq::new(20, |i: int| hex_pair_value(digits[2 * i], digits[2 * i + 1])))
    } else {
        None
    }
}

/// Two lower-case hexadecimal digits for each byte, in order.
pub open spec fn hex_of_bytes(bytes: Seq<u8>) -> Seq<char> {
    Seq::new(
        2 * bytes.len(),
        |k: int|
            hex_char(
                if k % 2 == 0 {
                    (bytes[k / 2] / 16) as nat
                } else {
                    (bytes[k / 2] % 16) as nat
                },
            ),
    )
}

/// The written form of an address: `0x` and forty lower-case digits.
pub open spec fn to_hex_spec(address: Seq<u8>) -> Seq<char> {
    seq!['0', 'x'] + hex_of_bytes(address)
}

/// Calls `from_str` of `ethabi::Address` (the `FromStr` impl of the
/// 20-byte fixed hash). That function drops one leading `0x`, then reads
/// the rest byte by byte: it skips spaces, tabs, line feeds and carriage
/// returns, takes two hexadecimal digits of either case for each of the
/// twenty bytes, and fails on any other character, on fewer than forty
/// digits and on anything but blanks after the fortieth. The contract
/// states this as `parse_address_spec`; the failure's detail is dropped.
#[verifier::external_body]
fn address_from_str(text: &str) -> (parsed: Option<[u8; 20]>)
    ensures
        match parsed {
            Some(bytes) => parse_address_spec(text@) == Some(bytes@),
            None => parse_address_spec(text@) is None,
        },
{
    ethabi::Address::from_str(text).ok().map(|address| address.0)
}

/// Reads a gauge address. Succeeds exactly on the texts that spell twenty
/// bytes, with those bytes; every other text is an invalid address.
pub fn parse_address(text: &str) -> (parsed: Result<[u8; 20], ContractError>)
    ensures
        match parsed {
            Ok(bytes) => parse_address_spec(text@) == Some(bytes@),
            Err(e) => e == ContractError::InvalidAddress && parse_address_spec(text@) is None,
        },
{
    match address_from_str(text) {
        Some(bytes) => Ok(bytes),
        None => Err(ContractError::InvalidAddress),
    }
}

/// The one-character text of the hexadecimal digit for `value`.
fn hex_digit_text(value: u8) -> (text: &'static str)
    requires
        value < 16,
    ensures
        text@ == seq![hex_char(value as nat)],
{
    proof {
        reveal_strlit("0");
        reveal_strlit("1");
        reveal_strlit("2");
        reveal_strlit("3");
        reveal_strlit("4");
        reveal_strlit("5");
        reveal_strlit("6");
        reveal_strlit("7");
        reveal_strlit("8");
        reveal_strlit("9");
        reveal_strlit("a");
        reveal_strlit("b");
        reveal_strlit("c");
        reveal_strlit("d");
        reveal_strlit("e");
        reveal_strlit("f");
    }
    let text = match value {
        0 => "0",
        1 => "1",
        2 => "2",
        3 => "3",
        4 => "4",
        5 => "5",
        6 => "6",
        7 => "7",
        8 => "8",
        9 => "9",
        10 => "a",
        11 => "b",
        12 => "c",
        13 => "d",
        14 => "e",
        _ => "f",
    };
    assert(text@ =~= seq![hex_char(value as nat)]);
    text
}

/// Writes an address as `0x` and forty lower-case hexadecimal digits.
/// What it writes reads back as the address.
pub fn to_hex(address: &[u8; 20]) -> (text: String)
    ensures
        text@ == to_hex_spec(address@),
        parse_address_spec(text@) == Some(address@),
{
    let mut text = "0x".to_owned();
    proof {
        reveal_strlit("0x");
        assert(text@ =~= seq!['0', 'x'] + hex_of_bytes(address@.take(0)));
    }
    let mut i: usize = 0;
    while i < 20
        invariant
            i <= 20,
            text@ == seq!['0', 'x'] + hex_of_bytes(address@.take(i as int)),
        decreases 20 - i,
    {
        let byte = address[i];
        let ghost before = text@;
        text.append(hex_digit_text(byte / 16));
        text.append(hex_digit_text(byte % 16));
        proof {
            let shorter = address@.take(i as int);
            let longer = address@.take(i + 1);
            assert(hex_of_bytes(longer) =~= hex_of_bytes(shorter) + seq![
                hex_char((byte / 16) as nat),
                hex_char((byte % 16) as nat),
            ]) by {
                assert forall|k: int| 0 <= k < 2 * shorter.len() implies hex_of_bytes(longer)[k]
                    == hex_of_bytes(shorter)[k] by {
                    assert(longer[k / 2] == shorter[k / 2]);
                }
            }
            assert(text@ =~= seq!['0', 'x'] + hex_of_bytes(longer));
        }
        i = i + 1;
    }
    proof {
        assert(address@.take(20) =~= address@);
        lemma_parse_of_to_hex(address@);
    }
    text
}

/// A filter keeps a sequence whole when every element passes.
proof fn lemma_filter_keeps_all<A>(s: Seq<A>, pred: spec_fn(A) -> bool)
    requires
        forall|i: int| 0 <= i < s.len() ==> pred(#[trigger] s[i]),
    ensures
        s.filter(pred) == s,
    decreases s.len(),
{
    reveal(Seq::filter);
    if s.len() > 0 {
        lemma_filter_keeps_all(s.drop_last(), pred);
        assert(s.drop_last().push(s.last()) =~= s);
    }
}

/// Reading what `to_hex` writes gives the address back: for every address
/// of twenty bytes, `parse_address_spec(to_hex_spec(address))` is that
/// address.
pub proof fn lemma_parse_of_to_hex(address: Seq<u8>)
    requires
        address.len() == 20,
    ensures
        parse_address_spec(to_hex_spec(address)) == Some(address),
{
    let text = to_hex_spec(address);
    let digits = hex_of_bytes(address);
    assert(without_prefix(text) =~= digits);
    let keep = |c: char| !is_blank(c);
    assert forall|k: int| 0 <= k < digits.len() implies keep(#[trigger] digits[k])
        && hex_digit_value(digits[k]) is Some by {
        lemma_hex_char_value(digit_at(address, k));
    }
    lemma_filter_keeps_all(digits, keep);
    assert(significant_chars(text) == digits);
    let parsed = Seq::new(20, |i: int| hex_pair_value(digits[2 * i], digits[2 * i + 1]));
    assert forall|i: int| 0 <= i < 20 implies parsed[i] == address[i] by {
        lemma_hex_char_value(digit_at(address, 2 * i));
        lemma_hex_char_value(digit_at(address, 2 * i + 1));
    }
    assert(parsed =~= address);
}

/// The value of the `k`-th hexadecimal digit of `bytes`.
spec fn digit_at(bytes: Seq<u8>, k: int) -> nat {
    if k % 2 == 0 {
        (bytes[k / 2] / 16) as nat
    } else {
        (bytes[k / 2] % 16) as nat
    }
}

/// The digit written for a value below sixteen is no blank and reads as
/// that value.
proof fn lemma_hex_char_value(value: nat)
    requires
        value < 16,
    ensures
        !is_blank(hex_char(value)),
        hex_digit_value(hex_char(value)) == Some(value),
{
}

} // verus!
