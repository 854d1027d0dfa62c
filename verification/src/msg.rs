//! The requests the contract takes and the messages it gives out.

use crate::uint256::Uint256;
use vstd::prelude::*;

verus! {

/// Who sent a request.
#[derive(Clone, Debug, PartialEq, Eq)]
pub struct MessageInfo {
    /// The identity of the sender.
    pub sender: String,
}

/// The request that creates the contract's state.
#[derive(Clone, Debug, PartialEq, Eq)]
pub struct InstantiateMsg {
    /// The identifier of the scheduled job that the relayer runs.
    pub job_id: String,
}

/// A request that acts.
#[derive(Clone, Debug, PartialEq, Eq)]
pub enum ExecuteMsg {
    /// Relay a batch of votes.
    PutVote { votes: Vec<Vote> },
}

/// The amounts between which a bot may claim.
#[derive(Clone, Debug, PartialEq, Eq)]
pub struct ClaimInfo {
    pub bot: String,
    pub min_amount: Uint256,
    pub max_amount: Uint256,
}

/// One vote: a gauge and the weight given to it.
#[derive(Clone, Debug, PartialEq, Eq)]
pub struct Vote {
    /// The gauge's address, twenty bytes written in hexadecimal.
    pub gauge_address: String,
    /// The weight the user gives to the gauge.
    pub user_weight: Uint256,
}

/// A vote as plain values.
pub struct VoteView {
    pub gauge_address: Seq<char>,
    pub user_weight: nat,
}

impl View for Vote {
    type V = VoteView;

    open spec fn view(&self) -> VoteView {
        VoteView { gauge_address: self.gauge_address@, user_weight: self.user_weight@ }
    }
}

/// The votes of a batch as plain values, in order.
pub open spec fn vote_views(votes: Seq<Vote>) -> Seq<VoteView> {
    votes.map_values(|vote: Vote| vote@)
}

/// The message that asks the relayer to run a job with a payload.
#[derive(Clone, Debug, PartialEq, Eq)]
pub struct PalomaMsg {
    /// The identifier of the scheduled job to run.
    pub job_id: String,
    /// The call data for the remote chain.
    pub payload: Vec<u8>,
}

/// An outbound message as plain values.
pub struct PalomaMsgView {
    pub job_id: Seq<char>,
    pub payload: Seq<u8>,
}

impl View for PalomaMsg {
    type V = PalomaMsgView;

    open spec fn view(&self) -> PalomaMsgView {
        PalomaMsgView { job_id: self.job_id@, payload: self.payload@ }
    }
}

/// A request that only reads.
#[derive(Clone, Debug, PartialEq, Eq)]
pub enum QueryMsg {
    /// Ask for the job identifier.
    GetJobId {},
}

/// The answer to `QueryMsg::GetJobId`.
#[derive(Clone, Debug, PartialEq, Eq)]
pub struct GetJobIdResponse {
    pub job_id: String,
}

} // verus!
