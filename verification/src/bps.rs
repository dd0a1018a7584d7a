//! Fractions in basis points: one basis point is a hundredth of a percent,
//! so 10000 basis points make the whole.

use vstd::prelude::*;
use vstd::arithmetic::div_mod::lemma_hoist_over_denominator;

verus! {

/// The number of basis points in the whole.
pub const BPS_DENOMINATOR: u32 = 10000;

/// The largest fee, in basis points, that an invoice or the protocol may charge.
pub const MAX_FEE_BPS: u32 = 1000;

/// The share of `amount` that `bps` basis points stand for, rounded down.
pub open spec fn bps_share(amount: int, bps: int) -> int {
    amount * bps / 10000
}

/// A share of a non-negative amount at no more than the whole lies between
/// zero and the amount.
pub proof fn lemma_bps_share_bounds(amount: int, bps: int)
    requires
        0 <= amount,
        0 <= bps <= 10000,
    ensures
        0 <= bps_share(amount, bps) <= amount,
{
    assert(0 <= amount * bps <= amount * 10000) by (nonlinear_arith)
        requires
            0 <= amount,
            0 <= bps <= 10000,
    ;
    assert(amount * 10000 / 10000 == amount);
}

/// Computes the share of `amount` that `bps` basis points stand for, rounded
/// down. The whole and the remainder of `amount / 10000` are scaled apart, so
/// that no intermediate product leaves the range of `i128`.
pub fn share_of(amount: i128, bps: u32) -> (share: i128)
    requires
        0 <= amount,
        bps <= 10000,
    ensures
        share == bps_share(amount as int, bps as int),
        0 <= share <= amount,
{
    let whole: i128 = amount / 10000;
    let rest: i128 = amount % 10000;
    let factor: i128 = bps as i128;
    proof {
        let a = amount as int;
        let b = bps as int;
        let q = a / 10000;
        let r = a % 10000;
        assert(a == q * 10000 + r);
        assert(0 <= q * b <= q * 10000) by (nonlinear_arith)
            requires
                0 <= q,
                0 <= b <= 10000,
        ;
        assert(0 <= r * b <= 9999 * 10000) by (nonlinear_arith)
            requires
                0 <= r <= 9999,
                0 <= b <= 10000,
        ;
        assert(a * b == r * b + (q * b) * 10000) by (nonlinear_arith)
            requires
                a == q * 10000 + r,
        ;
        lemma_hoist_over_denominator(r * b, q * b, 10000);
        lemma_bps_share_bounds(a, b);
    }
    whole * factor + rest * factor / 10000
}

} // verus!
