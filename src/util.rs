use vstd::prelude::*;

verus! {

/// `v` limited to the closed range `[lower, upper]`.
pub open spec fn clamp_spec(v: int, lower: int, upper: int) -> int {
    if v < lower {
        lower
    } else if v > upper {
        upper
    } else {
        v
    }
}

/// Returns `lower` when `a` is below it, `upper` when `a` is above it, and `a`
/// otherwise. A range with `lower >= upper` is a programming error.
pub fn clamp(a: i64, lower: i64, upper: i64) -> (r: i64)
    requires
        lower < upper,
    ensures
        r == clamp_spec(a as int, lower as int, upper as int),
        lower <= r <= upper,
{
    if a < lower {
        lower
    } else if a > upper {
        upper
    } else {
        a
    }
}

/// Quotient of `a` by a positive `d`, rounded toward zero.
pub open spec fn div_trunc_spec(a: int, d: int) -> int {
    if a >= 0 {
        a / d
    } else {
        -((-a) / d)
    }
}

/// Divides by a positive divisor, rounding toward zero.
pub fn div_trunc(a: i128, d: i128) -> (r: i128)
    requires
        d > 0,
        a > i128::MIN,
    ensures
        r == div_trunc_spec(a as int, d as int),
{
    if a >= 0 {
        a / d
    } else {
        -((-a) / d)
    }
}

/// The number of periods of length `d` needed to reach `total`: `⌈total/d⌉`.
pub open spec fn ceil_div(total: int, d: int) -> int {
    (total + d - 1) / d
}

/// A count `n` of periods of length `d` that reaches `total`, where one period
/// fewer would not, is `⌈total/d⌉`.
pub proof fn lemma_ceil_div(n: int, total: int, d: int)
    requires
        d > 0,
        n >= 0,
        total >= 0,
        n * d >= total,
        n == 0 || (n - 1) * d < total,
    ensures
        n == ceil_div(total, d),
{
    assert(n * d <= total + d - 1 < (n + 1) * d) by (nonlinear_arith)
        requires
            d > 0,
            n >= 0,
            total >= 0,
            n * d >= total,
            n == 0 || (n - 1) * d < total,
    ;
    vstd::arithmetic::div_mod::lemma_fundamental_div_mod_converse(
        total + d - 1,
        d,
        n,
        total + d - 1 - n * d,
    );
}

/// A count `n` of periods of length `d` that falls short of `total` is below
/// `⌈total/d⌉`.
pub proof fn lemma_below_ceil_div(n: int, total: int, d: int)
    requires
        d > 0,
        n >= 0,
        n * d < total,
    ensures
        n + 1 <= ceil_div(total, d),
{
    let x = total + d - 1;
    vstd::arithmetic::div_mod::lemma_fundamental_div_mod(x, d);
    let q = x / d;
    let r = x % d;
    assert(n + 1 <= q) by (nonlinear_arith)
        requires
            d > 0,
            n * d < total,
            x == total + d - 1,
            x == d * q + r,
            0 <= r < d,
    ;
}

/// Counting one more step past `steps` either completes a group of `k` or
/// extends the partial one.
pub proof fn lemma_count_step(steps: int, k: int)
    requires
        steps >= 0,
        k > 0,
    ensures
        steps % k + 1 == k ==> (steps + 1) % k == 0 && (steps + 1) / k == steps / k + 1,
        steps % k + 1 != k ==> (steps + 1) % k == steps % k + 1 && (steps + 1) / k == steps / k,
{
    vstd::arithmetic::div_mod::lemma_fundamental_div_mod(steps, k);
    let q = steps / k;
    let r = steps % k;
    if r + 1 == k {
        assert(steps + 1 == (q + 1) * k + 0) by (nonlinear_arith)
            requires
                steps == k * q + r,
                r + 1 == k,
        ;
        vstd::arithmetic::div_mod::lemma_fundamental_div_mod_converse(steps + 1, k, q + 1, 0);
    } else {
        assert(steps + 1 == q * k + (r + 1)) by (nonlinear_arith)
            requires
                steps == k * q + r,
        ;
        vstd::arithmetic::div_mod::lemma_fundamental_div_mod_converse(steps + 1, k, q, r + 1);
    }
}

} // verus!
