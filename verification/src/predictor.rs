//! Linear extrapolation of a block number from an anchor block.
//!
//! Given an anchor block, a target instant, and an average block-time rate,
//! the predicted number is the anchor number moved by the time difference
//! divided by the rate. The one rounding step of the whole search happens
//! here and rounds half away from zero; the result is clamped into the
//! valid block-number range `[0, head]` so that a wild first rate can never
//! push the search off the chain.

use vstd::prelude::*;
use crate::estimator::AvgBlockTime;
use crate::num::{
    clamp, round_away, round_div, lemma_round_away_scale, lemma_round_away_unit_interval,
};

verus! {

/// The number predicted from anchor block data: the anchor number minus
/// the rounded quotient of the time difference `anchor_ts - target_ts` by
/// the rate `span / window`, clamped into `[0, head]`.
pub open spec fn predict_spec(
    anchor: int,
    anchor_ts: int,
    target_ts: int,
    bt: AvgBlockTime,
    head: int,
) -> int {
    clamp(
        anchor - round_away((anchor_ts - target_ts) * (bt.window_blocks as int), bt.span_seconds as int),
        0,
        head,
    )
}

/// On a chain whose blocks sit exactly `d` seconds apart starting at `g`,
/// one linear extrapolation from any anchor block already lands within one
/// block of the target: the predicted block's timestamp differs from the
/// target instant by at most `d` seconds, wherever the anchor sits. This
/// is why the refinement loop needs no iterations on evenly spaced chains.
pub proof fn lemma_predict_exact_on_constant_spacing(
    g: int,
    d: int,
    anchor: int,
    head: int,
    t: int,
    bt: AvgBlockTime,
)
    requires
        1 <= d,
        0 <= anchor <= head,
        g <= t <= g + head * d,
        1 <= bt.window_blocks,
        bt.span_seconds == bt.window_blocks * d,
    ensures
        ({
            let p = predict_spec(anchor, g + anchor * d, t, bt, head);
            &&& 0 <= p <= head
            &&& -d < (g + p * d) - t <= d
        }),
{
    let w = bt.window_blocks as int;
    let q = (t - g) / d;
    let r = (t - g) % d;
    vstd::arithmetic::div_mod::lemma_fundamental_div_mod(t - g, d);
    vstd::arithmetic::div_mod::lemma_mod_bound(t - g, d);
    vstd::arithmetic::div_mod::lemma_div_pos_is_pos(t - g, d);
    vstd::arithmetic::div_mod::lemma_div_is_ordered(t - g, head * d, d);
    vstd::arithmetic::div_mod::lemma_div_multiples_vanish(head, d);
    assert(head * d == d * head) by (nonlinear_arith);
    let a0 = (anchor - q) * d - r;
    assert((g + anchor * d) - t == a0) by (nonlinear_arith)
        requires
            t - g == d * q + r,
            a0 == (anchor - q) * d - r,
    ;
    lemma_round_away_scale(a0, d, w);
    assert(bt.span_seconds as int == d * w) by (nonlinear_arith)
        requires
            bt.span_seconds == bt.window_blocks * d,
            w == bt.window_blocks as int,
    ;
    assert(((g + anchor * d) - t) * w == a0 * w);
    lemma_round_away_unit_interval(anchor - q, r, d);
    let delta = round_away(a0, d);
    assert(round_away(((g + anchor * d) - t) * (bt.window_blocks as int), bt.span_seconds as int)
        == delta);
    let p = predict_spec(anchor, g + anchor * d, t, bt, head);
    assert(q <= anchor - delta <= q + 1);
    assert(p == q || p == q + 1);
    assert((g + q * d) - t == -r) by (nonlinear_arith)
        requires
            t - g == d * q + r,
    ;
    assert((g + (q + 1) * d) - t == d - r) by (nonlinear_arith)
        requires
            t - g == d * q + r,
    ;
}

/// Computes [`predict_spec`] exactly.
pub fn predict_block_number(
    anchor: u64,
    anchor_ts: u64,
    target_ts: u64,
    bt: &AvgBlockTime,
    head: u64,
) -> (r: u64)
    requires
        bt.wf(),
        anchor <= head,
    ensures
        r == predict_spec(anchor as int, anchor_ts as int, target_ts as int, *bt, head as int),
        r <= head,
{
    let diff: i128 = anchor_ts as i128 - target_ts as i128;
    proof {
        assert(-0x10000000000000000000000000 <= diff * (bt.window_blocks as int)
            <= 0x10000000000000000000000000) by (nonlinear_arith)
            requires
                -0x10000000000000000 <= diff <= 0x10000000000000000,
                0 <= bt.window_blocks <= 100000,
        ;
    }
    let scaled: i128 = diff * (bt.window_blocks as i128);
    let delta: i128 = round_div(scaled, bt.span_seconds);
    let raw: i128 = anchor as i128 - delta;
    if raw < 0 {
        0
    } else if raw > head as i128 {
        head
    } else {
        raw as u64
    }
}

} // verus!
