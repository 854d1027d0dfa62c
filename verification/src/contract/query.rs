//! The handlers of the requests that only read.

use crate::error::ContractError;
use crate::msg::GetJobIdResponse;
use crate::state::{StateStore, StateView};
use vstd::prelude::*;

verus! {

/// The job identifier that a store holds, if it holds a state.
pub open spec fn job_id_spec(store: Option<StateView>) -> Result<Seq<char>, ContractError> {
    match store {
        Some(state) => Ok(state.job_id),
        None => Err(ContractError::StorageUninitialized),
    }
}

/// The job identifier kept in the state. Fails exactly when no state was
/// saved yet.
pub fn get_job_id(store: &StateStore) -> (result: Result<GetJobIdResponse, ContractError>)
    ensures
        match result {
            Ok(answer) => job_id_spec(store@) == Ok::<Seq<char>, ContractError>(answer.job_id@),
            Err(e) => job_id_spec(store@) == Err::<Seq<char>, ContractError>(e),
        },
{
    match store.load() {
        Ok(state) => Ok(GetJobIdResponse { job_id: state.job_id }),
        Err(e) => Err(e),
    }
}

} // verus!
