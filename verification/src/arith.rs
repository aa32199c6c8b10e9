//! Saturating and checked integer helpers with exact contracts.
use vstd::prelude::*;

verus! {

/// `a * b`, clamped to `max`.
pub open spec fn sat_mul_spec(a: int, b: int, max: int) -> int {
    if a * b > max { max } else { a * b }
}

/// `a - b`, clamped at zero.
pub open spec fn sat_sub_spec(a: int, b: int) -> int {
    if a >= b { a - b } else { 0 }
}

/// Saturating multiplication of two `u128` values.
pub fn sat_mul_u128(a: u128, b: u128) -> (r: u128)
    ensures
        r == sat_mul_spec(a as int, b as int, u128::MAX as int),
{
    match a.checked_mul(b) {
        Some(v) => v,
        None => u128::MAX,
    }
}

/// Saturating multiplication of two `u64` values.
pub fn sat_mul_u64(a: u64, b: u64) -> (r: u64)
    ensures
        r == sat_mul_spec(a as int, b as int, u64::MAX as int),
{
    match a.checked_mul(b) {
        Some(v) => v,
        None => u64::MAX,
    }
}

/// The smaller of two `u64` values.
pub fn min_u64(a: u64, b: u64) -> (r: u64)
    ensures
        r == (if a <= b { a } else { b }),
{
    if a <= b { a } else { b }
}

/// The larger of two `u64` values.
pub fn max_u64(a: u64, b: u64) -> (r: u64)
    ensures
        r == (if a >= b { a } else { b }),
{
    if a >= b { a } else { b }
}

/// `r` is a candidate square root of `n` (its square does not exceed `n`).
pub open spec fn sq_le(r: int, n: int) -> bool {
    r * r <= n
}

/// One Newton step never undershoots any candidate root: if `r * r <= n`
/// then `x + n / x >= 2 * r`.
proof fn lemma_newton_step(x: int, n: int, r: int)
    requires
        x >= 1,
        r >= 0,
        n >= 0,
        r * r <= n,
    ensures
        x + n / x >= 2 * r,
{
    let q = n / x;
    vstd::arithmetic::div_mod::lemma_fundamental_div_mod(n, x);
    vstd::arithmetic::div_mod::lemma_mod_bound(n, x);
    assert(n < x * (q + 1)) by (nonlinear_arith)
        requires n == x * q + n % x, n % x < x;
    assert(q >= 0) by (nonlinear_arith)
        requires x >= 1, n >= 0, q == n / x;
    if x + q < 2 * r {
        assert(x * (q + 1) <= x * (2 * r - x)) by (nonlinear_arith)
            requires x >= 1, q + 1 <= 2 * r - x;
        assert(x * (2 * r - x) <= r * r) by (nonlinear_arith);
    }
}

/// Floor of the square root of `n`, by Newton's iteration.
pub fn isqrt(n: u128) -> (r: u128)
    ensures
        r * r <= n,
        n < (r + 1) * (r + 1),
{
    if n == 0 {
        return 0;
    }
    let mut x: u128 = n;
    let mut y: u128 = n / 2 + n % 2;
    assert forall|c: int| 0 <= c && #[trigger] sq_le(c, n as int) implies c <= y by {
        if c > y {
            assert(c >= 1);
            assert(c * c >= c) by (nonlinear_arith) requires c >= 1;
            if c >= 2 {
                assert(c * c >= 2 * c) by (nonlinear_arith) requires c >= 2;
            }
        }
    }
    assert forall|c: int| 0 <= c && #[trigger] sq_le(c, n as int) implies c <= n by {
        if c > n {
            assert(c * c >= c) by (nonlinear_arith) requires c >= 1;
        }
    }
    assert(sq_le(1, n as int));
    assert(n / n == 1) by (nonlinear_arith) requires n >= 1;
    while y < x
        invariant
            1 <= n,
            1 <= x <= n,
            1 <= y,
            y <= n,
            y == (x + n / x) / 2,
            forall|c: int| 0 <= c && #[trigger] sq_le(c, n as int) ==> c <= y,
            forall|c: int| 0 <= c && #[trigger] sq_le(c, n as int) ==> c <= x,
        decreases x,
    {
        x = y;
        let q = n / x;
        assert(q <= n) by (nonlinear_arith) requires x >= 1, q == n / x;
        y = x / 2 + q / 2 + (x % 2 + q % 2) / 2;
        assert(y == (x + q) / 2);
        assert forall|c: int| 0 <= c && #[trigger] sq_le(c, n as int) implies c <= y by {
            lemma_newton_step(x as int, n as int, c);
        }
        assert(sq_le(1, n as int));
        assert(y >= 1);
        assert(y <= n) by (nonlinear_arith) requires x <= n, q <= n, y == (x + q) / 2;
    }
    // Here y >= x, hence n / x >= x and x * x <= n.
    assert(x >= 1);
    let ghost q = n / x;
    assert(q >= x);
    assert(x * x <= n) by (nonlinear_arith)
        requires x >= 1, q >= x, q == n / x;
    proof {
        if n >= (x + 1) * (x + 1) {
            assert(sq_le(x + 1, n as int));
        }
    }
    x
}

} // verus!
