//! Small division facts shared by the rasterizer, the light field and the
//! compositor.

use vstd::prelude::*;

verus! {

/// Dividing keeps a strict upper bound: `x / d < c` as soon as `x < c * d`.
pub proof fn lemma_div_below(x: int, d: int, c: int)
    requires
        0 <= x,
        0 < d,
        x < c * d,
    ensures
        x / d < c,
{
    vstd::arithmetic::div_mod::lemma_fundamental_div_mod(x, d);
    vstd::arithmetic::div_mod::lemma_mod_bound(x, d);
    let q = x / d;
    let r = x % d;
    assert(q < c) by (nonlinear_arith)
        requires
            x == d * q + r && 0 <= r && 0 < d && x < c * d,
    ;
}

/// Dividing keeps an upper bound: `x / d <= c` as soon as `x <= c * d`.
pub proof fn lemma_div_at_most(x: int, d: int, c: int)
    requires
        0 <= x,
        0 < d,
        x <= c * d,
    ensures
        x / d <= c,
{
    vstd::arithmetic::div_mod::lemma_fundamental_div_mod(x, d);
    vstd::arithmetic::div_mod::lemma_mod_bound(x, d);
    let q = x / d;
    let r = x % d;
    assert(q <= c) by (nonlinear_arith)
        requires
            x == d * q + r && 0 <= r && r < d && 0 < d && x <= c * d,
    ;
}

} // verus!
