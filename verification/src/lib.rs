//! Relay of gauge votes to a remote chain.
//!
//! A batch of votes is checked, turned into the call data of the remote
//! `vote(address[],uint256[])` function and wrapped, together with the job
//! identifier kept in the state store, into one outbound scheduling message.

pub mod abi;
pub mod address;
pub mod contract;
pub mod encoder;
pub mod error;
pub mod msg;
pub mod response;
pub mod state;
pub mod uint256;
