//! Saturating fixed-point scalars.
//!
//! A scalar is an `i64` that counts units of `1 / SCALE`. Every value the
//! kernel stores lies in `[-LIMIT, LIMIT]`; each operation rounds its exact
//! result toward zero and then saturates it into that range, the way a float
//! overflows to an infinity instead of wrapping.
use vstd::prelude::*;

verus! {

/// The number of raw units in one.
pub const SCALE: i64 = 65536;

/// The largest magnitude a stored scalar may have.
pub const LIMIT: i64 = 1099511627776;

/// One, as a scalar.
pub const ONE: i64 = 65536;

pub open spec fn in_range(x: int) -> bool {
    -LIMIT <= x <= LIMIT
}

pub open spec fn clamp(x: int) -> int {
    if x > LIMIT {
        LIMIT as int
    } else if x < -LIMIT {
        -LIMIT
    } else {
        x
    }
}

/// Division that rounds toward zero.
pub open spec fn quot(a: int, b: int) -> int {
    if b > 0 {
        if a >= 0 { a / b } else { -((-a) / b) }
    } else {
        if a >= 0 { -(a / (-b)) } else { (-a) / (-b) }
    }
}

pub open spec fn sat_add(a: int, b: int) -> int {
    clamp(a + b)
}

pub open spec fn sat_sub(a: int, b: int) -> int {
    clamp(a - b)
}

pub open spec fn sat_mul(a: int, b: int) -> int {
    clamp(quot(a * b, SCALE as int))
}

pub open spec fn sat_div(a: int, b: int) -> int {
    clamp(quot(a * SCALE, b))
}

pub open spec fn max0(a: int) -> int {
    if a > 0 { a } else { 0 }
}

/// The floor of the square root of `n`.
pub open spec fn is_isqrt(n: int, r: int) -> bool {
    0 <= r && r * r <= n < (r + 1) * (r + 1)
}

pub open spec fn isqrt(n: int) -> int {
    choose|r: int| is_isqrt(n, r)
}

pub open spec fn sat_sqrt(a: int) -> int {
    isqrt(a * SCALE)
}

/// `x` multiplied by itself `n` times, rounding after each product.
pub open spec fn sat_pow(x: int, n: nat) -> int
    decreases n,
{
    if n == 0 {
        ONE as int
    } else {
        sat_mul(sat_pow(x, (n - 1) as nat), x)
    }
}

pub proof fn lemma_clamp_in_range(x: int)
    ensures
        in_range(clamp(x)),
        in_range(x) ==> clamp(x) == x,
{
}

pub proof fn lemma_isqrt_unique(n: int, r: int, s: int)
    requires
        is_isqrt(n, r),
        is_isqrt(n, s),
    ensures
        r == s,
{
    if r < s {
        assert((r + 1) * (r + 1) <= s * s) by (nonlinear_arith)
            requires
                0 <= r + 1 <= s,
        ;
    } else if s < r {
        assert((s + 1) * (s + 1) <= r * r) by (nonlinear_arith)
            requires
                0 <= s + 1 <= r,
        ;
    }
}

/// A bound on a product from bounds on its factors.
pub proof fn lemma_mul_bound(a: int, b: int, ba: int, bb: int)
    requires
        -ba <= a <= ba,
        -bb <= b <= bb,
    ensures
        -(ba * bb) <= a * b <= ba * bb,
{
    assert(-(ba * bb) <= a * b <= ba * bb) by (nonlinear_arith)
        requires
            -ba <= a <= ba,
            -bb <= b <= bb,
    ;
}

/// Dividing an exact multiple loses nothing.
pub proof fn lemma_quot_exact(a: int, b: int)
    requires
        b > 0,
    ensures
        quot(a * b, b) == a,
{
    if a >= 0 {
        assert((a * b) / b == a) by (nonlinear_arith)
            requires
                b > 0,
                a >= 0,
        ;
    } else {
        assert((-(a * b)) / b == -a) by (nonlinear_arith)
            requires
                b > 0,
                a < 0,
        ;
        assert(a * b < 0) by (nonlinear_arith)
            requires
                b > 0,
                a < 0,
        ;
    }
}

pub(crate) fn quot_i128(a: i128, b: i128) -> (r: i128)
    requires
        b != 0,
        -0x1000_0000_0000_0000_0000_0000_0000 <= a <= 0x1000_0000_0000_0000_0000_0000_0000,
        -0x1000_0000_0000_0000_0000_0000_0000 <= b <= 0x1000_0000_0000_0000_0000_0000_0000,
    ensures
        r == quot(a as int, b as int),
{
    if b > 0 {
        a / b
    } else {
        (-a) / (-b)
    }
}

pub(crate) fn clamp_i128(x: i128) -> (r: i64)
    ensures
        r == clamp(x as int),
        in_range(r as int),
{
    if x > LIMIT as i128 {
        LIMIT
    } else if x < -(LIMIT as i128) {
        -LIMIT
    } else {
        x as i64
    }
}

pub fn fx_add(a: i64, b: i64) -> (r: i64)
    requires
        in_range(a as int),
        in_range(b as int),
    ensures
        r == sat_add(a as int, b as int),
        in_range(r as int),
{
    clamp_i128(a as i128 + b as i128)
}

pub fn fx_sub(a: i64, b: i64) -> (r: i64)
    requires
        in_range(a as int),
        in_range(b as int),
    ensures
        r == sat_sub(a as int, b as int),
        in_range(r as int),
{
    clamp_i128(a as i128 - b as i128)
}

pub fn fx_mul(a: i64, b: i64) -> (r: i64)
    requires
        in_range(a as int),
        in_range(b as int),
    ensures
        r == sat_mul(a as int, b as int),
        in_range(r as int),
{
    proof {
        lemma_mul_bound(a as int, b as int, LIMIT as int, LIMIT as int);
    }
    let p = a as i128 * b as i128;
    clamp_i128(quot_i128(p, SCALE as i128))
}

pub fn fx_div(a: i64, b: i64) -> (r: i64)
    requires
        in_range(a as int),
        in_range(b as int),
        b != 0,
    ensures
        r == sat_div(a as int, b as int),
        in_range(r as int),
{
    let p = a as i128 * SCALE as i128;
    clamp_i128(quot_i128(p, b as i128))
}

fn isqrt_i128(n: i128) -> (r: i128)
    requires
        0 <= n < 0x1_0000_0000_0000_0000,
    ensures
        is_isqrt(n as int, r as int),
        r <= 0x1_0000_0000,
{
    let mut lo: i128 = 0;
    let mut hi: i128 = 0x1_0000_0000;
    while hi - lo > 1
        invariant
            0 <= lo < hi <= 0x1_0000_0000,
            lo * lo <= n < hi * hi,
        decreases hi - lo,
    {
        let mid = lo + (hi - lo) / 2;
        proof {
            lemma_mul_bound(mid as int, mid as int, 0x1_0000_0000, 0x1_0000_0000);
        }
        if mid * mid <= n {
            lo = mid;
        } else {
            hi = mid;
        }
    }
    lo
}

pub fn fx_sqrt(a: i64) -> (r: i64)
    requires
        0 <= a <= LIMIT,
    ensures
        r == sat_sqrt(a as int),
        0 <= r <= LIMIT,
{
    let n = a as i128 * SCALE as i128;
    let r = isqrt_i128(n);
    proof {
        let c = choose|c: int| is_isqrt(n as int, c);
        lemma_isqrt_unique(n as int, r as int, c);
    }
    r as i64
}

pub fn fx_pow(x: i64, n: u32) -> (r: i64)
    requires
        in_range(x as int),
    ensures
        r == sat_pow(x as int, n as nat),
        in_range(r as int),
{
    let mut acc: i64 = ONE;
    let mut i: u32 = 0;
    while i < n
        invariant
            i <= n,
            in_range(x as int),
            acc == sat_pow(x as int, i as nat),
            in_range(acc as int),
        decreases n - i,
    {
        acc = fx_mul(acc, x);
        i = i + 1;
    }
    acc
}

} // verus!
