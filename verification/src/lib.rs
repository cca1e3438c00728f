//! Resolves, for a blockchain and a target instant, the block whose timestamp
//! is closest to that instant: either the earliest block at or after it, or
//! the latest block at or before it.
//!
//! The search runs as an estimation-and-refinement state machine that asks
//! its caller for one block at a time and memoizes every block it has seen,
//! so that a resolution needs only a handful of remote fetches.

pub mod block;
pub mod cache;
pub mod error;
pub mod estimator;
pub mod num;
pub mod predictor;
pub mod resolver;
