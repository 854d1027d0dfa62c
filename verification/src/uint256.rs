//! Unsigned 256-bit integers and their big-endian byte form.

use vstd::arithmetic::power2::{lemma2_to64, lemma_pow2_adds, pow2};
use vstd::prelude::*;

verus! {

/// The number that `bytes` spell in base 256, most significant byte first.
pub open spec fn be_value(bytes: Seq<u8>) -> nat
    decreases bytes.len(),
{
    if bytes.len() == 0 {
        0
    } else {
        256 * be_value(bytes.drop_last()) + bytes.last() as nat
    }
}

/// The `len` low-order base-256 digits of `value`, most significant first.
pub open spec fn be_bytes(value: nat, len: nat) -> Seq<u8>
    decreases len,
{
    if len == 0 {
        Seq::empty()
    } else {
        be_bytes(value / 256, (len - 1) as nat).push((value % 256) as u8)
    }
}

/// `be_bytes` yields exactly as many bytes as it is asked for.
pub proof fn lemma_be_bytes_len(value: nat, len: nat)
    ensures
        be_bytes(value, len).len() == len,
    decreases len,
{
    if len > 0 {
        lemma_be_bytes_len(value / 256, (len - 1) as nat);
    }
}

/// `n` bytes spell a number below `2^(8n)`.
pub proof fn lemma_be_value_bound(bytes: Seq<u8>)
    ensures
        be_value(bytes) < pow2(8 * bytes.len()),
    decreases bytes.len(),
{
    if bytes.len() == 0 {
        lemma2_to64();
    } else {
        let rest = bytes.drop_last();
        lemma_be_value_bound(rest);
        lemma_pow2_adds(8 * rest.len(), 8);
        lemma2_to64();
        assert(8 * bytes.len() == 8 * rest.len() + 8);
        assert(256 * be_value(rest) + 255 < 256 * pow2(8 * rest.len())) by (nonlinear_arith)
            requires
                be_value(rest) < pow2(8 * rest.len()),
        ;
    }
}

/// Writing out the number that `bytes` spell gives `bytes` back.
pub proof fn lemma_be_bytes_of_value(bytes: Seq<u8>)
    ensures
        be_bytes(be_value(bytes), bytes.len()) == bytes,
    decreases bytes.len(),
{
    if bytes.len() > 0 {
        let rest = bytes.drop_last();
        lemma_be_bytes_of_value(rest);
        let v = be_value(bytes);
        assert(v / 256 == be_value(rest));
        assert(v % 256 == bytes.last() as nat);
        assert(be_bytes(v, bytes.len()) =~= bytes);
    } else {
        assert(be_bytes(be_value(bytes), 0) =~= bytes);
    }
}

/// Reading back the `len` bytes written for a number that fits in them
/// gives the number.
pub proof fn lemma_be_value_of_bytes(value: nat, len: nat)
    requires
        value < pow2(8 * len),
    ensures
        be_value(be_bytes(value, len)) == value,
    decreases len,
{
    if len == 0 {
        lemma2_to64();
    } else {
        let shorter = (len - 1) as nat;
        lemma_pow2_adds(8 * shorter, 8);
        lemma2_to64();
        assert(8 * len == 8 * shorter + 8);
        assert(value / 256 < pow2(8 * shorter)) by (nonlinear_arith)
            requires
                value < 256 * pow2(8 * shorter),
        ;
        lemma_be_value_of_bytes(value / 256, shorter);
        let written = be_bytes(value, len);
        assert(written.drop_last() =~= be_bytes(value / 256, shorter));
        assert(written.last() == (value % 256) as u8);
    }
}

/// `n` bytes that are all `0xff` spell `2^(8n) - 1`.
pub proof fn lemma_be_value_of_ones(len: nat)
    ensures
        be_value(Seq::new(len, |i: int| 0xffu8)) == pow2(8 * len) - 1,
    decreases len,
{
    let ones = Seq::new(len, |i: int| 0xffu8);
    if len == 0 {
        lemma2_to64();
    } else {
        let shorter = (len - 1) as nat;
        lemma_be_value_of_ones(shorter);
        assert(ones.drop_last() =~= Seq::new(shorter, |i: int| 0xffu8));
        lemma_pow2_adds(8 * shorter, 8);
        lemma2_to64();
        assert(8 * len == 8 * shorter + 8);
    }
}

/// Zero is written as zero bytes, whatever their number.
pub proof fn lemma_be_bytes_of_zero(len: nat)
    ensures
        be_bytes(0, len) == Seq::new(len, |i: int| 0u8),
    decreases len,
{
    if len > 0 {
        lemma_be_bytes_of_zero((len - 1) as nat);
        lemma_be_bytes_len(0, (len - 1) as nat);
    }
    lemma_be_bytes_len(0, len);
    assert(be_bytes(0, len) =~= Seq::new(len, |i: int| 0u8));
}

/// The 32 bytes of `value`, most significant first.
pub fn word_of_u128(value: u128) -> (word: [u8; 32])
    ensures
        word@ == be_bytes(value as nat, 32),
{
    let mut word: [u8; 32] = [0u8; 32];
    let mut rest: u128 = value;
    let mut i: usize = 32;
    while i > 0
        invariant
            i <= 32,
            be_bytes(value as nat, 32)
                == be_bytes(rest as nat, i as nat) + word@.subrange(i as int, 32),
        decreases i,
    {
        i = i - 1;
        let digit: u8 = (rest % 256) as u8;
        let ghost before = word@;
        word[i] = digit;
        proof {
            let shorter = be_bytes((rest / 256) as nat, i as nat);
            assert(be_bytes(rest as nat, (i + 1) as nat) == shorter.push(digit));
            assert(word@.subrange(i as int, 32) =~= seq![digit] + before.subrange(i + 1, 32));
            assert(shorter.push(digit) + before.subrange(i + 1, 32)
                =~= shorter + word@.subrange(i as int, 32));
        }
        rest = rest / 256;
    }
    proof {
        assert(word@.subrange(0, 32) =~= word@);
        assert(be_bytes(rest as nat, 0) + word@ =~= word@);
    }
    word
}

/// An unsigned integer of 256 bits.
#[derive(Clone, Copy, Debug, PartialEq, Eq)]
pub struct Uint256 {
    be: [u8; 32],
}

impl View for Uint256 {
    type V = nat;

    closed spec fn view(&self) -> nat {
        be_value(self.be@)
    }
}

impl Uint256 {
    /// The integer that 32 bytes spell, most significant byte first.
    pub fn from_be_bytes(bytes: [u8; 32]) -> (value: Uint256)
        ensures
            value@ == be_value(bytes@),
    {
        Uint256 { be: bytes }
    }

    /// The integer equal to `value`.
    pub fn from_u128(value: u128) -> (wide: Uint256)
        ensures
            wide@ == value,
    {
        let be = word_of_u128(value);
        proof {
            lemma2_to64();
            lemma_pow2_adds(64, 64);
            lemma_pow2_adds(128, 128);
            assert(8 * 32 == 256);
            assert(pow2(128) <= pow2(128) * pow2(128)) by (nonlinear_arith)
                requires
                    pow2(128) >= 1,
            ;
            lemma_be_value_of_bytes(value as nat, 32);
        }
        Uint256 { be }
    }

    /// The largest integer of 256 bits, `2^256 - 1`.
    pub fn max_value() -> (largest: Uint256)
        ensures
            largest@ == pow2(256) - 1,
    {
        let be: [u8; 32] = [0xffu8; 32];
        proof {
            lemma_be_value_of_ones(32);
            assert(be@ =~= Seq::new(32, |i: int| 0xffu8));
            assert(8 * 32 == 256);
        }
        Uint256 { be }
    }

    /// The 32 bytes of the integer, most significant first.
    pub fn to_be_bytes(&self) -> (bytes: [u8; 32])
        ensures
            bytes@ == be_bytes(self@, 32),
    {
        proof {
            lemma_be_bytes_of_value(self.be@);
        }
        self.be
    }

    /// Every value fits in 256 bits.
    pub proof fn lemma_fits(self)
        ensures
            self@ < pow2(256),
    {
        lemma_be_value_bound(self.be@);
        assert(8 * self.be@.len() == 256);
    }
}

} // verus!
