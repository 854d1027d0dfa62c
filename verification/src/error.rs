//! The failures a request can end in.

use vstd::prelude::*;

verus! {

/// Why a request was turned down. A request that fails leaves no effect.
#[derive(Clone, Copy, Debug, PartialEq, Eq)]
pub enum ContractError {
    /// The state store was read before anything was saved in it.
    StorageUninitialized,
    /// A vote batch held no vote.
    EmptyBatch,
    /// A gauge address did not spell exactly twenty bytes in hexadecimal.
    InvalidAddress,
    /// The call data could not be built from the batch. The encoder's
    /// table of parameter types is fixed, so no request ends here.
    SerializationFailure,
}

} // verus!
