//! The contract's state and the store that keeps it.

use crate::error::ContractError;
use vstd::prelude::*;

verus! {

/// What the contract keeps between requests.
#[derive(Clone, Debug, PartialEq, Eq)]
pub struct State {
    /// The identifier of the scheduled job.
    pub job_id: String,
    /// Who created the contract.
    pub owner: String,
}

/// The state as plain values.
pub struct StateView {
    pub job_id: Seq<char>,
    pub owner: Seq<char>,
}

impl View for State {
    type V = StateView;

    open spec fn view(&self) -> StateView {
        StateView { job_id: self.job_id@, owner: self.owner@ }
    }
}

/// The single record in which the state is kept. It is empty until the
/// first `save`.
#[derive(Clone, Debug, PartialEq, Eq)]
pub struct StateStore {
    state: Option<State>,
}

impl View for StateStore {
    type V = Option<StateView>;

    closed spec fn view(&self) -> Option<StateView> {
        match self.state {
            Some(state) => Some(state@),
            None => None,
        }
    }
}

impl StateStore {
    /// A store in which nothing was saved yet.
    pub fn new() -> (store: StateStore)
        ensures
            store@ is None,
    {
        StateStore { state: None }
    }

    /// Keeps `state`, in place of what was kept before.
    pub fn save(&mut self, state: State)
        ensures
            final(self)@ == Some(state@),
    {
        self.state = Some(state);
    }

    /// The state that was saved last; fails while nothing was saved.
    pub fn load(&self) -> (loaded: Result<State, ContractError>)
        ensures
            match loaded {
                Ok(state) => self@ == Some(state@),
                Err(e) => e == ContractError::StorageUninitialized && self@ is None,
            },
    {
        match &self.state {
            Some(state) => Ok(State { job_id: state.job_id.clone(), owner: state.owner.clone() }),
            None => Err(ContractError::StorageUninitialized),
        }
    }
}

} // verus!
