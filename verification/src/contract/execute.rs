//! The handlers of the requests that act.

use crate::encoder::{encode, encode_spec};
use crate::error::ContractError;
use crate::msg::{vote_views, PalomaMsg, PalomaMsgView, Vote, VoteView};
use crate::response::{AttributeView, Response, ResponseView};
use crate::state::{StateStore, StateView};
use vstd::prelude::*;

verus! {

/// The response to a batch that was relayed: one message, with the job
/// identifier and the call data, and the attribute `action = vote`.
pub open spec fn dispatch_response(job_id: Seq<char>, payload: Seq<u8>) -> ResponseView {
    ResponseView {
        messages: seq![PalomaMsgView { job_id, payload }],
        attributes: seq![AttributeView { key: "action"@, value: "vote"@ }],
    }
}

/// What relaying `votes` gives when the store holds `store`. An empty
/// batch is turned down first, then a store without state, then a batch
/// with an address that does not parse; every other batch gives one
/// message with the stored job identifier and the encoded batch.
pub open spec fn vote_spec(
    store: Option<StateView>,
    votes: Seq<VoteView>,
) -> Result<ResponseView, ContractError> {
    if votes.len() == 0 {
        Err(ContractError::EmptyBatch)
    } else {
        match store {
            None => Err(ContractError::StorageUninitialized),
            Some(state) => match encode_spec(votes) {
                Ok(payload) => Ok(dispatch_response(state.job_id, payload)),
                Err(e) => Err(e),
            },
        }
    }
}

/// Turns an empty batch down and hands every other batch back as it came.
pub fn validate_batch(votes: Vec<Vote>) -> (checked: Result<Vec<Vote>, ContractError>)
    ensures
        match checked {
            Ok(batch) => votes@.len() > 0 && batch == votes,
            Err(e) => votes@.len() == 0 && e == ContractError::EmptyBatch,
        },
{
    if votes.len() == 0 {
        Err(ContractError::EmptyBatch)
    } else {
        Ok(votes)
    }
}

/// Wraps call data and the job identifier into the response that asks the
/// relayer to run the job.
pub fn dispatch(job_id: String, payload: Vec<u8>) -> (response: Response)
    ensures
        response@ == dispatch_response(job_id@, payload@),
{
    let message = PalomaMsg { job_id, payload };
    let response = Response::new().add_message(message).add_attribute("action", "vote");
    assert(response@.messages =~= dispatch_response(job_id@, payload@).messages);
    assert(response@.attributes =~= dispatch_response(job_id@, payload@).attributes);
    response
}

/// Relays a batch of votes: checks it, reads the job identifier, encodes
/// the batch and hands back the one message for the relayer.
pub fn vote(store: &StateStore, votes: Vec<Vote>) -> (result: Result<Response, ContractError>)
    ensures
        match result {
            Ok(response) => vote_spec(store@, vote_views(votes@))
                == Ok::<ResponseView, ContractError>(response@),
            Err(e) => vote_spec(store@, vote_views(votes@))
                == Err::<ResponseView, ContractError>(e),
        },
{
    let batch = match validate_batch(votes) {
        Ok(batch) => batch,
        Err(e) => {
            return Err(e);
        },
    };
    let state = match store.load() {
        Ok(state) => state,
        Err(e) => {
            return Err(e);
        },
    };
    match encode(&batch) {
        Ok(payload) => Ok(dispatch(state.job_id, payload)),
        Err(e) => Err(e),
    }
}

/// No batch ends in `SerializationFailure`: whatever the store holds, a
/// batch is turned down as empty, for want of a state or for an address
/// that does not parse, or it is relayed.
pub proof fn lemma_vote_never_fails_to_serialize(store: Option<StateView>, votes: Seq<VoteView>)
    ensures
        vote_spec(store, votes) != Err::<ResponseView, ContractError>(
            ContractError::SerializationFailure,
        ),
{
}

} // verus!
