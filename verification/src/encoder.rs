//! From a batch of votes to the call data of the remote function.

use crate::abi::{
    address_seqs, encode_vote_call, keccak_selector, lemma_vote_call_data_len, vote_call_data,
    vote_selector, vote_signature, weight_values,
};
use crate::address::{parse_address, parse_address_spec};
use crate::error::ContractError;
use crate::msg::{vote_views, Vote, VoteView};
use crate::uint256::Uint256;
use vstd::prelude::*;

verus! {

/// Every gauge address of the batch spells twenty bytes.
pub open spec fn addresses_valid(votes: Seq<VoteView>) -> bool {
    forall|i: int|
        0 <= i < votes.len() ==> parse_address_spec((#[trigger] votes[i]).gauge_address) is Some
}

/// The gauge addresses of the batch, parsed, in the order of the votes.
pub open spec fn gauge_addresses(votes: Seq<VoteView>) -> Seq<Seq<u8>> {
    votes.map_values(|vote: VoteView| parse_address_spec(vote.gauge_address).unwrap())
}

/// The weights of the batch, in the order of the votes.
pub open spec fn user_weights(votes: Seq<VoteView>) -> Seq<nat> {
    votes.map_values(|vote: VoteView| vote.user_weight)
}

/// What encoding a batch gives: the call data of `vote(address[],uint256[])`
/// on the parsed addresses and the weights, index by index, or the failure
/// `InvalidAddress` where an address of the batch does not parse.
pub open spec fn encode_spec(votes: Seq<VoteView>) -> Result<Seq<u8>, ContractError> {
    if addresses_valid(votes) {
        Ok(
            vote_call_data(
                keccak_selector(vote_signature())@,
                gauge_addresses(votes),
                user_weights(votes),
            ),
        )
    } else {
        Err(ContractError::InvalidAddress)
    }
}

/// `outcome` is what encoding `votes` is bound to return.
pub open spec fn encodes(votes: Seq<VoteView>, outcome: Result<Vec<u8>, ContractError>) -> bool {
    match outcome {
        Ok(call) => encode_spec(votes) == Ok::<Seq<u8>, ContractError>(call@),
        Err(e) => encode_spec(votes) == Err::<Seq<u8>, ContractError>(e),
    }
}

/// Splits a batch into two arrays that go index by index: the parsed
/// addresses and the weights. Fails where an address does not parse.
pub fn split_votes(votes: &Vec<Vote>) -> (split: Result<
    (Vec<[u8; 20]>, Vec<Uint256>),
    ContractError,
>)
    ensures
        match split {
            Ok((addresses, weights)) => {
                &&& addresses_valid(vote_views(votes@))
                &&& address_seqs(addresses@) == gauge_addresses(vote_views(votes@))
                &&& weight_values(weights@) == user_weights(vote_views(votes@))
            },
            Err(e) => e == ContractError::InvalidAddress && !addresses_valid(vote_views(votes@)),
        },
{
    let ghost views = vote_views(votes@);
    let mut addresses: Vec<[u8; 20]> = Vec::new();
    let mut weights: Vec<Uint256> = Vec::new();
    let mut i: usize = 0;
    while i < votes.len()
        invariant
            i <= votes@.len(),
            views == vote_views(votes@),
            addresses_valid(views.take(i as int)),
            address_seqs(addresses@) == gauge_addresses(views.take(i as int)),
            weight_values(weights@) == user_weights(views.take(i as int)),
        decreases votes@.len() - i,
    {
        let vote = &votes[i];
        let ghost parsed_before = address_seqs(addresses@);
        let ghost weights_before = weight_values(weights@);
        match parse_address(vote.gauge_address.as_str()) {
            Ok(address) => {
                addresses.push(address);
                weights.push(vote.user_weight);
                proof {
                    let done = views.take(i as int);
                    let next = views.take(i + 1);
                    assert(next =~= done.push(views[i as int]));
                    assert(views[i as int] == votes@[i as int]@);
                    assert(address_seqs(addresses@) =~= parsed_before.push(address@));
                    assert(weight_values(weights@) =~= weights_before.push(vote.user_weight@));
                    assert(gauge_addresses(next) =~= gauge_addresses(done).push(address@));
                    assert(user_weights(next) =~= user_weights(done).push(vote.user_weight@));
                    assert forall|k: int| 0 <= k < next.len() implies parse_address_spec(
                        (#[trigger] next[k]).gauge_address,
                    ) is Some by {
                        if k < i {
                            assert(next[k] == done[k]);
                        }
                    }
                }
            },
            Err(_) => {
                proof {
                    assert(views[i as int] == votes@[i as int]@);
                    assert(parse_address_spec(views[i as int].gauge_address) is None);
                }
                return Err(ContractError::InvalidAddress);
            },
        }
        i = i + 1;
    }
    proof {
        assert(views.take(i as int) =~= views);
    }
    Ok((addresses, weights))
}

/// Encodes a batch of votes as a call of the remote function
/// `vote(address[],uint256[])`.
pub fn encode(votes: &Vec<Vote>) -> (encoded: Result<Vec<u8>, ContractError>)
    ensures
        encodes(vote_views(votes@), encoded),
        encoded matches Ok(call) ==> call@.len() == 4 + 64 + 32 * 2 + 32 * votes@.len() * 2,
{
    match split_votes(votes) {
        Ok((addresses, weights)) => {
            let selector = vote_selector();
            proof {
                lemma_encode_len(vote_views(votes@));
            }
            Ok(encode_vote_call(&selector, &addresses, &weights))
        },
        Err(e) => Err(e),
    }
}

/// Encoding is a function of the batch: whatever two calls of `encode` on
/// one batch return, they return the same, byte for byte.
pub proof fn lemma_encode_deterministic(
    votes: Seq<VoteView>,
    first: Result<Vec<u8>, ContractError>,
    second: Result<Vec<u8>, ContractError>,
)
    requires
        encodes(votes, first),
        encodes(votes, second),
    ensures
        match (first, second) {
            (Ok(a), Ok(b)) => a@ == b@,
            (Err(a), Err(b)) => a == b,
            _ => false,
        },
{
}

/// A batch whose addresses all parse encodes to the selector, two offsets,
/// two length words and two words for each vote: `4 + 64 + 32 * 2 +
/// 32 * n * 2` bytes for `n` votes.
pub proof fn lemma_encode_len(votes: Seq<VoteView>)
    requires
        addresses_valid(votes),
    ensures
        encode_spec(votes) is Ok,
        encode_spec(votes).unwrap().len() == 4 + 64 + 32 * 2 + 32 * votes.len() * 2,
{
    lemma_vote_call_data_len(
        keccak_selector(vote_signature())@,
        gauge_addresses(votes),
        user_weights(votes),
    );
}

} // verus!
