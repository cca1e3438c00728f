//! Average block time over a window of blocks, as an exact rational.
//!
//! The rate "seconds per block" over a window ending at a reference block is
//! the timestamp span of the window divided by its size in blocks. It is
//! kept as the pair (span, window) rather than as a quotient, so every later
//! comparison and prediction is exact integer arithmetic: no rounding enters
//! before the one documented rounding step of the predictor.

use vstd::prelude::*;
use vstd::math::abs;
use crate::block::BlockRecord;
use crate::error::ResolveError;

verus! {

/// Default window size, in blocks, for a coarse estimate.
pub const DEFAULT_ESTIMATE_WINDOW: u64 = 100000;

/// Window size, in blocks, for the locally accurate estimate taken around
/// an already predicted block.
pub const REFINED_ESTIMATE_WINDOW: u64 = 1000;

/// Mean seconds per block over a window: exactly the rational
/// `span_seconds / window_blocks`.
#[derive(Clone, Copy, Debug)]
pub struct AvgBlockTime {
    /// Seconds elapsed between the first and the last block of the window.
    pub span_seconds: u64,
    /// Number of block increments spanned by the window.
    pub window_blocks: u64,
}

impl AvgBlockTime {
    /// A usable rate: a positive span over a bounded, positive window.
    pub open spec fn wf(&self) -> bool {
        &&& 1 <= self.window_blocks <= DEFAULT_ESTIMATE_WINDOW
        &&& self.span_seconds >= 1
    }
}

/// The first block number of an averaging window of `window` blocks ending
/// at `reference_number`: rejected when the window would reach below the
/// genesis block, or spans no block at all.
pub fn window_start(reference_number: u64, window: u64) -> (r: Result<u64, ResolveError>)
    ensures
        r == if 1 <= window && window <= reference_number {
            Result::<u64, ResolveError>::Ok((reference_number - window) as u64)
        } else {
            Result::<u64, ResolveError>::Err(ResolveError::InvalidRange)
        },
{
    if 1 <= window && window <= reference_number {
        Ok(reference_number - window)
    } else {
        Err(ResolveError::InvalidRange)
    }
}

/// The mean seconds-per-block rate over a window of `window` blocks whose
/// first block was produced at `first_timestamp` and whose last at
/// `reference_timestamp`. Succeeds exactly when the window spans a positive
/// amount of time; a window that spans no time admits no rate, and a
/// prediction made from it would divide by zero.
pub fn average_block_time(first_timestamp: u64, reference_timestamp: u64, window: u64) -> (r:
    Result<AvgBlockTime, ResolveError>)
    requires
        1 <= window <= DEFAULT_ESTIMATE_WINDOW,
    ensures
        match r {
            Ok(bt) => {
                &&& first_timestamp < reference_timestamp
                &&& bt.span_seconds == reference_timestamp - first_timestamp
                &&& bt.window_blocks == window
                &&& bt.wf()
            },
            Err(e) => {
                &&& e == ResolveError::ZeroBlockTime
                &&& reference_timestamp <= first_timestamp
            },
        },
{
    if first_timestamp < reference_timestamp {
        Ok(AvgBlockTime { span_seconds: reference_timestamp - first_timestamp, window_blocks: window })
    } else {
        Err(ResolveError::ZeroBlockTime)
    }
}

/// Whether the scaled magnitude of the time difference `target_ts -
/// block_ts` reaches `factor` times the rate: exactly the comparison
/// `|diff| >= factor * (span / window)`, carried out without division.
pub open spec fn diff_reaches(target_ts: int, block_ts: int, bt: AvgBlockTime, factor: int) -> bool {
    abs(target_ts - block_ts) * bt.window_blocks >= factor * bt.span_seconds
}

/// Whether the scaled magnitude of the time difference strictly exceeds
/// `factor` times the rate.
pub open spec fn diff_exceeds(target_ts: int, block_ts: int, bt: AvgBlockTime, factor: int) -> bool {
    abs(target_ts - block_ts) * bt.window_blocks > factor * bt.span_seconds
}

/// Decides `|target_ts - block_ts| >= factor * (span / window)` exactly.
pub fn diff_at_least(target_ts: u64, block_ts: u64, bt: &AvgBlockTime, factor: u64) -> (r: bool)
    requires
        bt.wf(),
        factor <= 1000,
    ensures
        r == diff_reaches(target_ts as int, block_ts as int, *bt, factor as int),
{
    let diff: i128 = target_ts as i128 - block_ts as i128;
    let mag: u128 = if diff >= 0 {
        diff as u128
    } else {
        (-diff) as u128
    };
    proof {
        vstd::arithmetic::mul::lemma_mul_upper_bound(
            mag as int,
            0xffff_ffff_ffff_ffff,
            bt.window_blocks as int,
            100000,
        );
        vstd::arithmetic::mul::lemma_mul_upper_bound(
            factor as int,
            1000,
            bt.span_seconds as int,
            0xffff_ffff_ffff_ffff,
        );
    }
    mag * (bt.window_blocks as u128) >= (factor as u128) * (bt.span_seconds as u128)
}

/// Decides `|target_ts - block_ts| > factor * (span / window)` exactly.
pub fn diff_more_than(target_ts: u64, block_ts: u64, bt: &AvgBlockTime, factor: u64) -> (r: bool)
    requires
        bt.wf(),
        factor <= 1000,
    ensures
        r == diff_exceeds(target_ts as int, block_ts as int, *bt, factor as int),
{
    let diff: i128 = target_ts as i128 - block_ts as i128;
    let mag: u128 = if diff >= 0 {
        diff as u128
    } else {
        (-diff) as u128
    };
    proof {
        vstd::arithmetic::mul::lemma_mul_upper_bound(
            mag as int,
            0xffff_ffff_ffff_ffff,
            bt.window_blocks as int,
            100000,
        );
        vstd::arithmetic::mul::lemma_mul_upper_bound(
            factor as int,
            1000,
            bt.span_seconds as int,
            0xffff_ffff_ffff_ffff,
        );
    }
    mag * (bt.window_blocks as u128) > (factor as u128) * (bt.span_seconds as u128)
}

/// The chain's blocks are spaced exactly `d` seconds apart.
pub open spec fn constant_spacing(c: Seq<BlockRecord>, d: nat) -> bool {
    forall|i: int|
        0 <= i && i + 1 < c.len() ==> (#[trigger] c[i + 1]).timestamp == c[i].timestamp + d
}

/// On a chain with constant spacing `d`, the span of any averaging window
/// is exactly the window size times `d`: the estimated rate
/// `span / window` equals `d` no matter where the window is placed.
pub proof fn lemma_estimate_exact_on_constant_spacing(
    c: Seq<BlockRecord>,
    d: nat,
    first: int,
    reference: int,
)
    requires
        constant_spacing(c, d),
        0 <= first <= reference < c.len(),
    ensures
        c[reference].timestamp - c[first].timestamp == (reference - first) * d,
    decreases reference - first,
{
    if first < reference {
        lemma_estimate_exact_on_constant_spacing(c, d, first, reference - 1);
        assert(c[(reference - 1) + 1].timestamp == c[reference - 1].timestamp + d);
        assert((reference - first) * d == (reference - 1 - first) * d + d) by (nonlinear_arith);
    } else {
        assert((reference - first) * d == 0) by (nonlinear_arith)
            requires
                first == reference,
        ;
    }
}

} // verus!
