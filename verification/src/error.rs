//! The error taxonomy of a resolution.
//!
//! Every error aborts the resolution that raised it; nothing is retried and
//! no partial result is ever returned. Transport failures of the remote
//! collaborator are not represented here: the caller that performs the
//! fetches surfaces those directly.

use vstd::prelude::*;

verus! {

/// Why a resolution stopped without producing a block.
#[derive(Clone, Copy, Debug, PartialEq, Eq, Structural)]
pub enum ResolveError {
    /// The fetch collaborator reported that a requested block number does
    /// not exist on the chain.
    NotFound,
    /// An averaging window would reach below the chain's genesis block.
    InvalidRange,
    /// The target instant lies before the genesis block's timestamp or
    /// after the chain head's timestamp.
    OutOfRange,
    /// The coarse refinement loop exceeded its iteration bound.
    ConvergenceFailure,
    /// An averaging window spans no time at all, so no block-time rate can
    /// be formed and a prediction would divide by zero.
    ZeroBlockTime,
}

} // verus!
