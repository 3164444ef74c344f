//! Fixed-point scales, and division that rounds down.

use vstd::prelude::*;
use vstd::arithmetic::div_mod::lemma_fundamental_div_mod_converse;

verus! {

/// One, on the scale of normalised coordinates, angles, cosines and sines.
pub const UNIT: i64 = 1_000_000;

/// One pixel, on the scale of pixel coordinates: twice [`UNIT`], so that
/// half of a denormalised extent is a whole number.
pub const PIXEL: i64 = 2_000_000;

/// Bound on the magnitude of a dividend of [`floor_div`].
pub open spec fn max_dividend() -> int {
    0x1_0000_0000_0000_0000_0000_0000int
}

/// `p / d`, rounded down.
pub(crate) fn floor_div(p: i128, d: i128) -> (q: i128)
    requires
        -max_dividend() <= p <= max_dividend(),
        0 < d <= max_dividend(),
    ensures
        q == p as int / d as int,
        p >= 0 ==> 0 <= q <= p,
        p < 0 ==> p <= q < 0,
{
    if p >= 0 {
        let q: i128 = p / d;
        assert(0 <= q <= p) by (nonlinear_arith)
            requires
                q == p as int / d as int,
                p >= 0,
                d > 0,
        ;
        q
    } else {
        let m: i128 = -p;
        let up: i128 = (m + (d - 1)) / d;
        proof {
            let r = up * d - m;
            assert(0 <= r < d && 0 < up <= m) by (nonlinear_arith)
                requires
                    up == (m + (d - 1)) / d as int,
                    r == up * d - m,
                    0 < m,
                    0 < d,
            ;
            assert(p as int == (-up) * d + r) by (nonlinear_arith)
                requires
                    r == up * d - m,
                    p == -m,
            ;
            lemma_fundamental_div_mod_converse(p as int, d as int, -(up as int), r as int);
        }
        -up
    }
}

} // verus!
