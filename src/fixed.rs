//! Fixed-point numbers: the library measures lengths and light in units of 1/65536.
use vstd::prelude::*;

verus! {

/// Fixed-point units in one whole unit of length or light.
pub const UNIT: i64 = 65536;

/// Largest magnitude accepted by `div_round`.
pub const DIV_BOUND: i128 = 0x1_0000_0000_0000_0000_0000_0000;

/// `n / d` rounded to the nearest integer, halves away from zero (`d > 0`).
pub open spec fn round_div(n: int, d: int) -> int {
    if n >= 0 {
        (2 * n + d) / (2 * d)
    } else {
        -((2 * -n + d) / (2 * d))
    }
}

/// The rounded quotient is no farther from zero than `|n| / d + 1`.
pub proof fn lemma_round_div_bound(n: int, d: int)
    requires
        d >= 1,
    ensures
        n >= 0 ==> 0 <= round_div(n, d) && d * round_div(n, d) <= n + d,
        n < 0 ==> round_div(n, d) <= 0 && d * (-round_div(n, d)) <= -n + d,
        n >= 0 ==> round_div(n, d) <= n + 1,
        n < 0 ==> n - 1 <= round_div(n, d),
{
    let m = if n >= 0 { n } else { -n };
    let x = 2 * m + d;
    let q = x / (2 * d);
    vstd::arithmetic::div_mod::lemma_fundamental_div_mod(x, 2 * d);
    vstd::arithmetic::div_mod::lemma_div_pos_is_pos(x, 2 * d);
    assert(0 <= x % (2 * d));
    assert(d * q <= m + d) by (nonlinear_arith)
        requires
            x == 2 * d * q + x % (2 * d),
            0 <= x % (2 * d),
            x == 2 * m + d,
            d >= 1,
    ;
    assert(q <= m + 1) by (nonlinear_arith)
        requires
            d * q <= m + d,
            d >= 1,
            q >= 0,
            m >= 0,
    ;
}

/// Where `|n| <= k * d`, the rounded quotient lies within `k` of zero.
pub proof fn lemma_round_div_within(n: int, d: int, k: int)
    requires
        d >= 1,
        k >= 0,
        -(k * d) <= n <= k * d,
    ensures
        -k <= round_div(n, d) <= k,
{
    let m = if n >= 0 { n } else { -n };
    let x = 2 * m + d;
    let q = x / (2 * d);
    vstd::arithmetic::div_mod::lemma_fundamental_div_mod(x, 2 * d);
    vstd::arithmetic::div_mod::lemma_div_pos_is_pos(x, 2 * d);
    assert(q <= k) by (nonlinear_arith)
        requires
            x == 2 * d * q + x % (2 * d),
            0 <= x % (2 * d),
            x == 2 * m + d,
            m <= k * d,
            d >= 1,
    ;
}

/// Rounded integer division, halves away from zero.
pub fn div_round(n: i128, d: i128) -> (r: i128)
    requires
        0 < d <= DIV_BOUND,
        -DIV_BOUND <= n <= DIV_BOUND,
    ensures
        r == round_div(n as int, d as int),
{
    let m: u128 = if n >= 0 { n as u128 } else { (-n) as u128 };
    let x: u128 = 2 * m + (d as u128);
    let q: u128 = x / (2 * (d as u128));
    proof {
        vstd::arithmetic::div_mod::lemma_div_is_ordered_by_denominator(x as int, 1, 2 * d as int);
    }
    if n >= 0 {
        q as i128
    } else {
        -(q as i128)
    }
}

} // verus!
