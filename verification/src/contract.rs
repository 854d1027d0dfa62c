//! The entry points: create the state, relay votes, answer queries.

pub mod execute;
pub mod query;

use crate::error::ContractError;
use crate::msg::{vote_views, ExecuteMsg, GetJobIdResponse, InstantiateMsg, MessageInfo, QueryMsg};
use crate::response::{AttributeView, Response, ResponseView};
use crate::state::{State, StateStore, StateView};
use vstd::prelude::*;

verus! {

/// What the store holds once `sender` has created the state with `job_id`.
pub open spec fn instantiated(sender: Seq<char>, job_id: Seq<char>) -> Option<StateView> {
    Some(StateView { job_id, owner: sender })
}

/// The response to a request that created the state: no message, and the
/// attributes `method`, `owner` and `job_id`, in this order.
pub open spec fn instantiate_response(sender: Seq<char>, job_id: Seq<char>) -> ResponseView {
    ResponseView {
        messages: Seq::empty(),
        attributes: seq![
            AttributeView { key: "method"@, value: "instantiate"@ },
            AttributeView { key: "owner"@, value: sender },
            AttributeView { key: "job_id"@, value: job_id },
        ],
    }
}

/// What `execute` answers to `msg` when the store holds `store`.
pub open spec fn execute_spec(
    store: Option<StateView>,
    msg: ExecuteMsg,
) -> Result<ResponseView, ContractError> {
    match msg {
        ExecuteMsg::PutVote { votes } => execute::vote_spec(store, vote_views(votes@)),
    }
}

/// What `query` answers to `msg` when the store holds `store`.
pub open spec fn query_spec(
    store: Option<StateView>,
    msg: QueryMsg,
) -> Result<Seq<char>, ContractError> {
    match msg {
        QueryMsg::GetJobId {  } => query::job_id_spec(store),
    }
}

/// Creates the state: the job identifier of `msg`, owned by the sender.
/// Always succeeds; the store then holds exactly this state.
pub fn instantiate(
    store: &mut StateStore,
    info: MessageInfo,
    msg: InstantiateMsg,
) -> (result: Result<Response, ContractError>)
    ensures
        final(store)@ == instantiated(info.sender@, msg.job_id@),
        result matches Ok(response)
            && response@ == instantiate_response(info.sender@, msg.job_id@),
{
    let state = State { job_id: msg.job_id.clone(), owner: info.sender.clone() };
    store.save(state);
    let response = Response::new()
        .add_attribute("method", "instantiate")
        .add_attribute("owner", info.sender.as_str())
        .add_attribute("job_id", msg.job_id.as_str());
    assert(response@.attributes =~= instantiate_response(info.sender@, msg.job_id@).attributes);
    Ok(response)
}

/// Routes a request that acts to its handler. The store is left as it was.
pub fn execute(
    store: &StateStore,
    _info: MessageInfo,
    msg: ExecuteMsg,
) -> (result: Result<Response, ContractError>)
    ensures
        match result {
            Ok(response) => execute_spec(store@, msg)
                == Ok::<ResponseView, ContractError>(response@),
            Err(e) => execute_spec(store@, msg) == Err::<ResponseView, ContractError>(e),
        },
{
    match msg {
        ExecuteMsg::PutVote { votes } => execute::vote(store, votes),
    }
}

/// Routes a request that only reads to its handler.
pub fn query(store: &StateStore, msg: QueryMsg) -> (result: Result<GetJobIdResponse, ContractError>)
    ensures
        match result {
            Ok(answer) => query_spec(store@, msg) == Ok::<Seq<char>, ContractError>(answer.job_id@),
            Err(e) => query_spec(store@, msg) == Err::<Seq<char>, ContractError>(e),
        },
{
    match msg {
        QueryMsg::GetJobId {  } => query::get_job_id(store),
    }
}

/// The job identifier given at creation is the one that every later query
/// returns. Requests that act take the store read-only, so the store that
/// `instantiate` left answers `job_id` before and after any number of
/// relayed batches.
pub proof fn lemma_job_id_is_kept(sender: Seq<char>, job_id: Seq<char>)
    ensures
        query_spec(instantiated(sender, job_id), QueryMsg::GetJobId {  })
            == Ok::<Seq<char>, ContractError>(job_id),
{
}

} // verus!
