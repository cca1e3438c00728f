//! Integer division that rounds half away from zero.
//!
//! Block-time rates are kept as exact rationals (a span of seconds over a
//! window of blocks), so dividing a signed time difference by a rate is
//! `diff * window / span` with one fixed rounding convention:
//! round-half-away-from-zero.

use vstd::prelude::*;

verus! {

/// Largest magnitude accepted by [`round_div`]; wide enough for any
/// timestamp difference multiplied by any averaging window.
pub const ROUND_DIV_BOUND: i128 = 0x10000000000000000000000000;

/// The quotient `a / b`, rounded half away from zero, for `b > 0`.
pub open spec fn round_away(a: int, b: int) -> int {
    if a >= 0 {
        (2 * a + b) / (2 * b)
    } else {
        -((2 * (-a) + b) / (2 * b))
    }
}

/// The value `x` clamped into `[lo, hi]`.
pub open spec fn clamp(x: int, lo: int, hi: int) -> int {
    if x < lo {
        lo
    } else if x > hi {
        hi
    } else {
        x
    }
}

/// Rounding half away from zero never grows the magnitude of the dividend
/// and keeps its sign.
proof fn lemma_round_away_bounds(a: int, b: int)
    requires
        b >= 1,
    ensures
        a >= 0 ==> 0 <= round_away(a, b) <= a,
        a < 0 ==> a <= round_away(a, b) <= 0,
{
    if a >= 0 {
        assert(0 <= (2 * a + b) / (2 * b) <= a) by (nonlinear_arith)
            requires
                a >= 0,
                b >= 1,
        ;
    } else {
        assert(0 <= (2 * (-a) + b) / (2 * b) <= -a) by (nonlinear_arith)
            requires
                a < 0,
                b >= 1,
        ;
    }
}

/// Scaling dividend and divisor alike does not change the rounded
/// quotient: a rate kept as `(span * k) / (window * k)` rounds exactly as
/// `span / window` does.
pub proof fn lemma_round_away_scale(a: int, b: int, k: int)
    requires
        b >= 1,
        k >= 1,
    ensures
        round_away(a * k, b * k) == round_away(a, b),
{
    if a >= 0 {
        let q = (2 * a + b) / (2 * b);
        let r = (2 * a + b) % (2 * b);
        vstd::arithmetic::div_mod::lemma_fundamental_div_mod(2 * a + b, 2 * b);
        vstd::arithmetic::div_mod::lemma_mod_bound(2 * a + b, 2 * b);
        assert(2 * (a * k) + b * k == q * (2 * (b * k)) + r * k) by (nonlinear_arith)
            requires
                2 * a + b == (2 * b) * q + r,
        ;
        assert(0 <= r * k < 2 * (b * k)) by (nonlinear_arith)
            requires
                0 <= r < 2 * b,
                k >= 1,
        ;
        vstd::arithmetic::div_mod::lemma_fundamental_div_mod_converse_div(
            2 * (a * k) + b * k,
            2 * (b * k),
            q,
            r * k,
        );
        assert(a * k >= 0) by (nonlinear_arith)
            requires
                a >= 0,
                k >= 1,
        ;
    } else {
        let m = -a;
        let q = (2 * m + b) / (2 * b);
        let r = (2 * m + b) % (2 * b);
        vstd::arithmetic::div_mod::lemma_fundamental_div_mod(2 * m + b, 2 * b);
        vstd::arithmetic::div_mod::lemma_mod_bound(2 * m + b, 2 * b);
        assert(2 * (m * k) + b * k == q * (2 * (b * k)) + r * k) by (nonlinear_arith)
            requires
                2 * m + b == (2 * b) * q + r,
        ;
        assert(0 <= r * k < 2 * (b * k)) by (nonlinear_arith)
            requires
                0 <= r < 2 * b,
                k >= 1,
        ;
        vstd::arithmetic::div_mod::lemma_fundamental_div_mod_converse_div(
            2 * (m * k) + b * k,
            2 * (b * k),
            q,
            r * k,
        );
        assert(a * k < 0 && -(a * k) == m * k) by (nonlinear_arith)
            requires
                a < 0,
                k >= 1,
                m == -a,
        ;
    }
}

/// Rounding a value that sits within one divisor below a whole multiple
/// lands on that multiple or one below it: `round_away(x * d - r, d)` is
/// `x` or `x - 1` whenever `0 <= r < d`.
pub proof fn lemma_round_away_unit_interval(x: int, r: int, d: int)
    requires
        1 <= d,
        0 <= r < d,
    ensures
        x - 1 <= round_away(x * d - r, d) <= x,
{
    let y = x * d - r;
    if y >= 0 {
        if d - 2 * r >= 0 {
            assert(2 * y + d == x * (2 * d) + (d - 2 * r)) by (nonlinear_arith)
                requires
                    y == x * d - r,
            ;
            vstd::arithmetic::div_mod::lemma_fundamental_div_mod_converse_div(
                2 * y + d,
                2 * d,
                x,
                d - 2 * r,
            );
        } else {
            assert(2 * y + d == (x - 1) * (2 * d) + (3 * d - 2 * r)) by (nonlinear_arith)
                requires
                    y == x * d - r,
            ;
            vstd::arithmetic::div_mod::lemma_fundamental_div_mod_converse_div(
                2 * y + d,
                2 * d,
                x - 1,
                3 * d - 2 * r,
            );
        }
    } else {
        let u = -x;
        if 2 * r < d {
            assert(2 * (-y) + d == u * (2 * d) + (2 * r + d)) by (nonlinear_arith)
                requires
                    y == x * d - r,
                    u == -x,
            ;
            vstd::arithmetic::div_mod::lemma_fundamental_div_mod_converse_div(
                2 * (-y) + d,
                2 * d,
                u,
                2 * r + d,
            );
        } else {
            assert(2 * (-y) + d == (u + 1) * (2 * d) + (2 * r - d)) by (nonlinear_arith)
                requires
                    y == x * d - r,
                    u == -x,
            ;
            vstd::arithmetic::div_mod::lemma_fundamental_div_mod_converse_div(
                2 * (-y) + d,
                2 * d,
                u + 1,
                2 * r - d,
            );
        }
    }
}

/// `a / b` rounded half away from zero, computed on unsigned magnitudes.
pub fn round_div(a: i128, b: u64) -> (r: i128)
    requires
        b >= 1,
        -ROUND_DIV_BOUND <= a <= ROUND_DIV_BOUND,
    ensures
        r == round_away(a as int, b as int),
        a >= 0 ==> 0 <= r <= a,
        a < 0 ==> a <= r <= 0,
{
    proof {
        lemma_round_away_bounds(a as int, b as int);
    }
    let bu: u128 = b as u128;
    if a >= 0 {
        let m: u128 = a as u128;
        let q: u128 = (2 * m + bu) / (2 * bu);
        assert(q <= m) by (nonlinear_arith)
            requires
                q == (2 * m + bu) / (2 * bu),
                bu >= 1,
        ;
        q as i128
    } else {
        let m: u128 = (-a) as u128;
        let q: u128 = (2 * m + bu) / (2 * bu);
        assert(q <= m) by (nonlinear_arith)
            requires
                q == (2 * m + bu) / (2 * bu),
                bu >= 1,
        ;
        -(q as i128)
    }
}

} // verus!
