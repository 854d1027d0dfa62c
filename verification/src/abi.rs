//! The call data of the remote `vote` function: a four-byte selector and
//! two dynamic arrays in head/tail layout.

use crate::uint256::{
    be_bytes, lemma_be_bytes_len, lemma_be_bytes_of_value, lemma_be_bytes_of_zero,
    lemma_be_value_of_ones, word_of_u128, Uint256,
};
use vstd::arithmetic::power2::pow2;
use vstd::prelude::*;

verus! {

/// The type of a parameter of the remote function.
#[derive(Clone, Copy, Debug, PartialEq, Eq)]
pub enum ParamKind {
    /// `address[]`: addresses, any number of them.
    AddressArray,
    /// `uint256[]`: unsigned 256-bit integers, any number of them.
    Uint256Array,
}

/// The canonical name of a parameter type.
pub open spec fn kind_name(kind: ParamKind) -> Seq<char> {
    match kind {
        ParamKind::AddressArray => "address[]"@,
        ParamKind::Uint256Array => "uint256[]"@,
    }
}

/// The canonical type names, with a comma between each two.
pub open spec fn joined_names(kinds: Seq<ParamKind>) -> Seq<char>
    decreases kinds.len(),
{
    if kinds.len() == 0 {
        Seq::empty()
    } else if kinds.len() == 1 {
        kind_name(kinds[0])
    } else {
        joined_names(kinds.drop_last()) + seq![','] + kind_name(kinds.last())
    }
}

/// The canonical signature of a function: its name, then the canonical
/// names of its parameter types in round brackets.
pub open spec fn canonical_signature(name: Seq<char>, kinds: Seq<ParamKind>) -> Seq<char> {
    name + seq!['('] + joined_names(kinds) + seq![')']
}

/// The first four bytes of the Keccak-256 hash of `signature` in UTF-8.
pub uninterp spec fn keccak_selector(signature: Seq<char>) -> [u8; 4];

/// Calls `ethabi::short_signature`. That function writes the canonical
/// signature of `name` and the parameter types (`address[]` for an array
/// of addresses, `uint256[]` for an array of 256-bit unsigned integers),
/// hashes its bytes with Keccak-256 and returns the first four bytes of
/// the hash. The contract names that result; the hash itself is not
/// stated.
#[verifier::external_body]
fn short_signature(name: &str, kinds: &Vec<ParamKind>) -> (selector: [u8; 4])
    ensures
        selector == keccak_selector(canonical_signature(name@, kinds@)),
{
    let params: Vec<ethabi::ParamType> = kinds.iter().map(|kind| match kind {
        ParamKind::AddressArray => ethabi::ParamType::Array(Box::new(ethabi::ParamType::Address)),
        ParamKind::Uint256Array => ethabi::ParamType::Array(Box::new(ethabi::ParamType::Uint(256))),
    }).collect();
    ethabi::short_signature(name, &params)
}

/// The canonical signature of the remote function.
pub open spec fn vote_signature() -> Seq<char> {
    canonical_signature("vote"@, seq![ParamKind::AddressArray, ParamKind::Uint256Array])
}

/// The signature of the remote function reads `vote(address[],uint256[])`.
pub proof fn lemma_vote_signature()
    ensures
        vote_signature() == "vote(address[],uint256[])"@,
{
    reveal_strlit("vote");
    reveal_strlit("address[]");
    reveal_strlit("uint256[]");
    reveal_strlit("vote(address[],uint256[])");
    let kinds = seq![ParamKind::AddressArray, ParamKind::Uint256Array];
    let first = kinds.drop_last();
    assert(first.len() == 1);
    assert(joined_names(first) == kind_name(first[0]));
    assert(joined_names(kinds) == joined_names(first) + seq![','] + kind_name(kinds.last()));
    assert(vote_signature() =~= "vote(address[],uint256[])"@);
}

/// The selector of the remote function `vote(address[],uint256[])`.
pub fn vote_selector() -> (selector: [u8; 4])
    ensures
        selector == keccak_selector(vote_signature()),
{
    let mut kinds: Vec<ParamKind> = Vec::new();
    kinds.push(ParamKind::AddressArray);
    kinds.push(ParamKind::Uint256Array);
    assert(kinds@ =~= seq![ParamKind::AddressArray, ParamKind::Uint256Array]);
    short_signature("vote", &kinds)
}

/// The 32-byte word of an unsigned integer: big-endian.
pub open spec fn uint_word(value: nat) -> Seq<u8> {
    be_bytes(value, 32)
}

/// The 32-byte word of an address: twelve zero bytes, then the address.
pub open spec fn address_word(address: Seq<u8>) -> Seq<u8> {
    Seq::new(12, |i: int| 0u8) + address
}

/// The tail of a dynamic array: the word of its length, then its elements'
/// words in order.
pub open spec fn array_tail(words: Seq<Seq<u8>>) -> Seq<u8> {
    uint_word(words.len()) + words.flatten()
}

/// The words of the addresses, in order.
pub open spec fn address_words(addresses: Seq<Seq<u8>>) -> Seq<Seq<u8>> {
    addresses.map_values(|address: Seq<u8>| address_word(address))
}

/// The words of the weights, in order.
pub open spec fn weight_words(weights: Seq<nat>) -> Seq<Seq<u8>> {
    weights.map_values(|weight: nat| uint_word(weight))
}

/// The encoded arguments `(address[], uint256[])`: a head of two offsets,
/// each counted from the start of the arguments to the tail of one array,
/// then the two tails. The first tail starts right after the head, at 64;
/// the second after the first tail's length word and elements.
pub open spec fn vote_call_args(addresses: Seq<Seq<u8>>, weights: Seq<nat>) -> Seq<u8> {
    uint_word(64) + uint_word(96 + 32 * addresses.len()) + array_tail(address_words(addresses))
        + array_tail(weight_words(weights))
}

/// The call data: the selector, then the encoded arguments.
pub open spec fn vote_call_data(
    selector: Seq<u8>,
    addresses: Seq<Seq<u8>>,
    weights: Seq<nat>,
) -> Seq<u8> {
    selector + vote_call_args(addresses, weights)
}

/// The addresses as byte sequences.
pub open spec fn address_seqs(addresses: Seq<[u8; 20]>) -> Seq<Seq<u8>> {
    addresses.map_values(|address: [u8; 20]| address@)
}

/// The weights as numbers.
pub open spec fn weight_values(weights: Seq<Uint256>) -> Seq<nat> {
    weights.map_values(|weight: Uint256| weight@)
}

/// Appends `bytes` to `out`.
fn append_bytes(out: &mut Vec<u8>, bytes: &[u8])
    ensures
        final(out)@ == old(out)@ + bytes@,
{
    let mut i: usize = 0;
    while i < bytes.len()
        invariant
            i <= bytes@.len(),
            out@ == old(out)@ + bytes@.take(i as int),
        decreases bytes@.len() - i,
    {
        out.push(bytes[i]);
        assert(bytes@.take(i + 1) =~= bytes@.take(i as int).push(bytes@[i as int]));
        i = i + 1;
    }
    assert(bytes@.take(bytes@.len() as int) =~= bytes@);
}

/// Appends the word of `value` to `out`.
fn append_uint_word(out: &mut Vec<u8>, value: u128)
    ensures
        final(out)@ == old(out)@ + uint_word(value as nat),
{
    let word = word_of_u128(value);
    append_bytes(out, word.as_slice());
}

/// Encodes a call of the remote function: `selector`, then the head and
/// the tails of the two arrays, byte for byte as `vote_call_data` says.
pub fn encode_vote_call(
    selector: &[u8; 4],
    addresses: &Vec<[u8; 20]>,
    weights: &Vec<Uint256>,
) -> (call: Vec<u8>)
    ensures
        call@ == vote_call_data(selector@, address_seqs(addresses@), weight_values(weights@)),
{
    let ghost address_list = address_seqs(addresses@);
    let ghost weight_list = weight_values(weights@);
    let mut call: Vec<u8> = Vec::new();
    append_bytes(&mut call, selector.as_slice());
    append_uint_word(&mut call, 64);
    append_uint_word(&mut call, 96 + 32 * (addresses.len() as u128));
    append_uint_word(&mut call, addresses.len() as u128);
    let ghost head = call@;
    assert(head =~= selector@ + uint_word(64) + uint_word(96 + 32 * address_list.len())
        + uint_word(address_list.len()));
    let padding: [u8; 12] = [0u8; 12];
    assert(padding@ =~= Seq::new(12, |i: int| 0u8));
    let mut i: usize = 0;
    assert(address_words(address_list).take(0).flatten() =~= Seq::<u8>::empty());
    while i < addresses.len()
        invariant
            i <= addresses@.len(),
            address_list == address_seqs(addresses@),
            padding@ == Seq::new(12, |i: int| 0u8),
            call@ == head + address_words(address_list).take(i as int).flatten(),
        decreases addresses@.len() - i,
    {
        append_bytes(&mut call, padding.as_slice());
        append_bytes(&mut call, addresses[i].as_slice());
        proof {
            let words = address_words(address_list);
            let done = words.take(i as int);
            assert(words.take(i + 1) =~= done.push(words[i as int]));
            done.lemma_flatten_push(words[i as int]);
            assert(words[i as int] == address_word(addresses@[i as int]@));
            assert(call@ =~= head + words.take(i + 1).flatten());
        }
        i = i + 1;
    }
    assert(address_words(address_list).take(i as int) =~= address_words(address_list));
    append_uint_word(&mut call, weights.len() as u128);
    let ghost first_tail = call@;
    assert(first_tail =~= selector@ + uint_word(64) + uint_word(96 + 32 * address_list.len())
        + array_tail(address_words(address_list)) + uint_word(weight_list.len()));
    let mut j: usize = 0;
    assert(weight_words(weight_list).take(0).flatten() =~= Seq::<u8>::empty());
    while j < weights.len()
        invariant
            j <= weights@.len(),
            weight_list == weight_values(weights@),
            call@ == first_tail + weight_words(weight_list).take(j as int).flatten(),
        decreases weights@.len() - j,
    {
        let word = weights[j].to_be_bytes();
        append_bytes(&mut call, word.as_slice());
        proof {
            let words = weight_words(weight_list);
            let done = words.take(j as int);
            assert(words.take(j + 1) =~= done.push(words[j as int]));
            done.lemma_flatten_push(words[j as int]);
            assert(words[j as int] == uint_word(weights@[j as int]@));
            assert(call@ =~= first_tail + words.take(j + 1).flatten());
        }
        j = j + 1;
    }
    assert(weight_words(weight_list).take(j as int) =~= weight_words(weight_list));
    assert(call@ =~= vote_call_data(selector@, address_list, weight_list));
    call
}

/// Words of one width, laid end to end, take that width times their number.
proof fn lemma_flatten_len(words: Seq<Seq<u8>>, width: nat)
    requires
        forall|i: int| 0 <= i < words.len() ==> (#[trigger] words[i]).len() == width,
    ensures
        words.flatten().len() == width * words.len(),
    decreases words.len(),
{
    if words.len() > 0 {
        let rest = words.drop_first();
        assert forall|i: int| 0 <= i < rest.len() implies (#[trigger] rest[i]).len() == width by {
            assert(rest[i] == words[i + 1]);
        }
        lemma_flatten_len(rest, width);
        assert(width * words.len() == width + width * rest.len()) by (nonlinear_arith)
            requires
                words.len() == rest.len() + 1,
        ;
    }
}

/// The size of the call data: the selector, two offsets, two length words
/// and one word for each address and each weight.
pub proof fn lemma_vote_call_data_len(
    selector: Seq<u8>,
    addresses: Seq<Seq<u8>>,
    weights: Seq<nat>,
)
    requires
        selector.len() == 4,
        forall|i: int| 0 <= i < addresses.len() ==> (#[trigger] addresses[i]).len() == 20,
    ensures
        vote_call_data(selector, addresses, weights).len()
            == 4 + 64 + 32 * 2 + 32 * addresses.len() + 32 * weights.len(),
{
    lemma_be_bytes_len(64, 32);
    lemma_be_bytes_len((96 + 32 * addresses.len()) as nat, 32);
    lemma_be_bytes_len(addresses.len(), 32);
    lemma_be_bytes_len(weights.len(), 32);
    let words = weight_words(weights);
    assert forall|i: int| 0 <= i < words.len() implies (#[trigger] words[i]).len() == 32 by {
        lemma_be_bytes_len(weights[i], 32);
    }
    lemma_flatten_len(address_words(addresses), 32);
    lemma_flatten_len(weight_words(weights), 32);
}

/// The word of zero is thirty-two zero bytes.
pub proof fn lemma_uint_word_of_zero()
    ensures
        uint_word(0) == Seq::new(32, |i: int| 0u8),
{
    lemma_be_bytes_of_zero(32);
}

/// The word of the largest weight, `2^256 - 1`, is thirty-two bytes `0xff`.
pub proof fn lemma_uint_word_of_max()
    ensures
        uint_word((pow2(256) - 1) as nat) == Seq::new(32, |i: int| 0xffu8),
{
    let ones = Seq::new(32, |i: int| 0xffu8);
    lemma_be_value_of_ones(32);
    lemma_be_bytes_of_value(ones);
    assert(8 * 32 == 256);
}

} // verus!
