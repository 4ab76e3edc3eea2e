//! Errors reported by the state engine and its collaborators.

use vstd::prelude::*;

use crate::batch::InvalidTransaction;

verus! {

/// Every failure the state engine can report.
///
/// - `Initialization`: the store could not be opened or the genesis
///   snapshot could not be produced; the engine is never constructed.
/// - `ExecutionTimeout`: the execution pipeline produced no result for a
///   batch within the configured bound; nothing was staged.
/// - `InvalidBatch`: at least one transaction in the batch failed; the
///   first failure is carried here and the full detail is recorded in the
///   batch's tracked status.
/// - `NoPendingChange`: `commit` was called while no change set was
///   staged; a caller-contract violation, surfaced as an error.
/// - `Persistence`: the store failed while computing, applying, or
///   durably recording a state root; the in-memory root is not advanced.
#[derive(Debug)]
pub enum ScabbardStateError {
    Initialization(String),
    ExecutionTimeout,
    InvalidBatch(InvalidTransaction),
    NoPendingChange,
    Persistence(String),
}

} // verus!
