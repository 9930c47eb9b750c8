//! Integer facts that the block arithmetic relies on.

use vstd::prelude::*;

verus! {

/// `ceil(x / d)` for a positive divisor.
pub open spec fn ceil_div_spec(x: int, d: int) -> int {
    (x + d - 1) / d
}

/// `k` whole units of `d` fall short of `x` exactly when `k` is below the
/// number of units that cover `x`.
pub proof fn lemma_ceil_div_bound(x: int, d: int, k: int)
    requires
        0 < d,
        0 <= x,
        0 <= k,
    ensures
        (k * d < x) == (k < ceil_div_spec(x, d)),
{
    let q = (x + d - 1) / d;
    let r = (x + d - 1) % d;
    assert(x + d - 1 == d * q + r && 0 <= r < d) by {
        vstd::arithmetic::div_mod::lemma_fundamental_div_mod(x + d - 1, d);
    }
    if k < q {
        assert(k * d <= (q - 1) * d) by (nonlinear_arith)
            requires
                k <= q - 1,
                0 < d,
        ;
        assert((q - 1) * d == q * d - d) by (nonlinear_arith);
        assert(q * d == d * q) by (nonlinear_arith);
    } else {
        assert(k * d >= q * d) by (nonlinear_arith)
            requires
                k >= q,
                0 < d,
        ;
        assert(q * d == d * q) by (nonlinear_arith);
    }
}

/// Division with rounding up.
pub fn ceil_div(a: u32, b: u32) -> (r: u32)
    requires
        b > 0,
        a + b - 1 <= u32::MAX,
    ensures
        r == ceil_div_spec(a as int, b as int),
{
    (a + (b - 1)) / b
}

} // verus!
