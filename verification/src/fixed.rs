//! Saturating fixed-point arithmetic on `i64` scalars.
//!
//! A scalar carries [`SCALE`] units per whole unit, so `1.0` is stored as
//! `1_000_000`. The representable domain is symmetric, `[-FP_MAX, FP_MAX]`:
//! keeping `i64::MIN` out of the domain makes negation total, which in turn
//! makes the pairwise force computation exactly antisymmetric. Multiplication
//! and division round toward zero and saturate at the domain ends.

use vstd::prelude::*;

verus! {

/// Number of fixed-point units per whole unit.
pub const SCALE: i64 = 1_000_000;

/// Largest magnitude a fixed-point scalar may carry.
pub const FP_MAX: i64 = i64::MAX;

/// A value lies in the symmetric fixed-point domain.
pub open spec fn fp_ok(v: int) -> bool {
    -(FP_MAX as int) <= v <= FP_MAX as int
}

/// Magnitude (absolute value) of a mathematical integer.
pub open spec fn fp_mag(v: int) -> nat {
    if v >= 0 {
        v as nat
    } else {
        (-v) as nat
    }
}

/// Attach a sign to a magnitude.
pub open spec fn fp_with_sign(neg: bool, m: nat) -> int {
    if neg {
        -(m as int)
    } else {
        m as int
    }
}

/// Saturate a value into the fixed-point domain.
pub open spec fn fp_clamp(v: int) -> int {
    if v > FP_MAX as int {
        FP_MAX as int
    } else if v < -(FP_MAX as int) {
        -(FP_MAX as int)
    } else {
        v
    }
}

/// Division of mathematical integers that rounds toward zero, total with
/// quotient zero on a zero divisor.
pub open spec fn fp_tdiv(n: int, d: int) -> int {
    if d == 0 {
        0
    } else {
        fp_with_sign((n < 0) != (d < 0), fp_mag(n) / fp_mag(d))
    }
}

/// Fixed-point product: `a * b / SCALE`, rounded toward zero, saturated.
pub open spec fn fp_mul(a: int, b: int) -> int {
    fp_clamp(fp_tdiv(a * b, SCALE as int))
}

/// Fixed-point quotient: `a * SCALE / b`, rounded toward zero, saturated.
pub open spec fn fp_div(a: int, b: int) -> int {
    fp_clamp(fp_tdiv(a * (SCALE as int), b))
}

/// Fixed-point sum, saturated.
pub open spec fn fp_add(a: int, b: int) -> int {
    fp_clamp(a + b)
}

/// Fixed-point difference, saturated.
pub open spec fn fp_sub(a: int, b: int) -> int {
    fp_clamp(a - b)
}

/// Floor of the square root of a natural number.
pub open spec fn sqrt_floor(n: nat) -> nat
    decreases n,
{
    if n == 0 {
        0
    } else {
        let r: nat = sqrt_floor((n - 1) as nat);
        if (r + 1) * (r + 1) <= n {
            r + 1
        } else {
            r
        }
    }
}

/// Fixed-point square root of a non-negative scalar: `sqrt(v / SCALE) * SCALE`
/// is `sqrt(v * SCALE)`, rounded down. Zero on negative input.
pub open spec fn fp_sqrt(v: int) -> int {
    if v <= 0 {
        0
    } else {
        sqrt_floor((v * (SCALE as int)) as nat) as int
    }
}

/// `sqrt_floor(n)` is the unique natural `r` with `r^2 <= n < (r+1)^2`.
pub proof fn lemma_sqrt_floor_bounds(n: nat)
    ensures
        sqrt_floor(n) * sqrt_floor(n) <= n,
        n < (sqrt_floor(n) + 1) * (sqrt_floor(n) + 1),
    decreases n,
{
    if n == 0 {
        assert(sqrt_floor(0) == 0);
        assert(n < (sqrt_floor(n) + 1) * (sqrt_floor(n) + 1)) by (nonlinear_arith)
            requires
                n == 0,
                sqrt_floor(n) == 0,
        ;
    } else {
        let r: nat = sqrt_floor((n - 1) as nat);
        lemma_sqrt_floor_bounds((n - 1) as nat);
        if (r + 1) * (r + 1) <= n {
            assert(sqrt_floor(n) == r + 1);
            assert(n < (r + 2) * (r + 2)) by (nonlinear_arith)
                requires
                    n <= (r + 1) * (r + 1),
            ;
        } else {
            assert(sqrt_floor(n) == r);
        }
    }
}

/// Any natural bracketed by consecutive squares is the square-root floor.
pub proof fn lemma_sqrt_floor_unique(n: nat, r: nat)
    requires
        r * r <= n,
        n < (r + 1) * (r + 1),
    ensures
        r == sqrt_floor(n),
{
    let s: nat = sqrt_floor(n);
    lemma_sqrt_floor_bounds(n);
    assert(!(r < s) && !(s < r)) by (nonlinear_arith)
        requires
            r * r <= n,
            n < (r + 1) * (r + 1),
            s * s <= n,
            n < (s + 1) * (s + 1),
    ;
}

proof fn lemma_mul_ring(a: int, b: int)
    by (nonlinear_arith)
    ensures
        a * b == (-a) * (-b),
        -(a * b) == (-a) * b,
        -(a * b) == a * (-b),
        a >= 0 && b >= 0 ==> a * b >= 0,
        a <= 0 && b <= 0 ==> a * b >= 0,
        a >= 0 && b <= 0 ==> a * b <= 0,
        a <= 0 && b >= 0 ==> a * b <= 0,
        a > 0 && b > 0 ==> a * b > 0,
        a < 0 && b < 0 ==> a * b > 0,
        a > 0 && b < 0 ==> a * b < 0,
        a < 0 && b > 0 ==> a * b < 0,
{
}

/// The magnitude of a product is the product of the magnitudes, and the
/// product is negative exactly when the factors have opposite signs.
pub proof fn lemma_mag_mul(a: int, b: int)
    ensures
        fp_mag(a * b) == fp_mag(a) * fp_mag(b),
        (a * b < 0) <==> (((a < 0) != (b < 0)) && a != 0 && b != 0),
{
    lemma_mul_ring(a, b);
}

/// Negating one factor negates a fixed-point product exactly.
pub proof fn lemma_fp_mul_neg_left(a: int, b: int)
    ensures
        fp_mul(-a, b) == -fp_mul(a, b),
{
    lemma_mul_ring(a, b);
    lemma_mag_mul(a, b);
    lemma_mag_mul(-a, b);
}

/// Zero is absorbed by the fixed-point operations in the usual way.
pub proof fn lemma_fp_zero(a: int)
    ensures
        fp_mul(0, a) == 0,
        fp_div(0, a) == 0,
        fp_add(a, 0) == fp_clamp(a),
        fp_ok(a) ==> fp_add(a, 0) == a,
{
    if a != 0 {
        vstd::arithmetic::div_mod::lemma_div_of0(fp_mag(a) as int);
    }
    vstd::arithmetic::div_mod::lemma_div_of0(SCALE as int);
}

/// Negating both factors leaves a fixed-point product unchanged.
pub proof fn lemma_fp_mul_neg_both(a: int, b: int)
    ensures
        fp_mul(-a, -b) == fp_mul(a, b),
{
    lemma_mul_ring(a, b);
}

/// Negating the dividend negates a fixed-point quotient exactly.
pub proof fn lemma_fp_div_neg_left(a: int, b: int)
    ensures
        fp_div(-a, b) == -fp_div(a, b),
{
    lemma_mul_ring(a, SCALE as int);
    lemma_mag_mul(a, SCALE as int);
    lemma_mag_mul(-a, SCALE as int);
}

/// Magnitude of an `i64`, as a `u64`.
fn i64_mag(a: i64) -> (m: u64)
    ensures
        m as nat == fp_mag(a as int),
{
    if a >= 0 {
        a as u64
    } else {
        (-(a as i128)) as u64
    }
}

/// Saturate a signed magnitude into an `i64` in the fixed-point domain.
fn clamp_to_fp(neg: bool, m: u128) -> (r: i64)
    ensures
        r as int == fp_clamp(fp_with_sign(neg, m as nat)),
{
    if m >= FP_MAX as u128 {
        if neg {
            -FP_MAX
        } else {
            FP_MAX
        }
    } else {
        let v: i64 = m as i64;
        if neg {
            -v
        } else {
            v
        }
    }
}

/// Saturating fixed-point multiplication.
pub fn mul_fp(a: i64, b: i64) -> (r: i64)
    ensures
        r as int == fp_mul(a as int, b as int),
{
    let ma: u64 = i64_mag(a);
    let mb: u64 = i64_mag(b);
    proof {
        assert((ma as nat) * (mb as nat) <= (u64::MAX as nat) * (u64::MAX as nat))
            by (nonlinear_arith)
            requires
                ma <= u64::MAX,
                mb <= u64::MAX,
        ;
    }
    let p: u128 = (ma as u128) * (mb as u128);
    let q: u128 = p / (SCALE as u128);
    let neg: bool = (a < 0) != (b < 0);
    proof {
        lemma_mag_mul(a as int, b as int);
    }
    clamp_to_fp(neg, q)
}

/// Saturating fixed-point division. The zero divisor is excluded rather than
/// given a value: callers guard it, as the simulation skips degenerate pairs.
pub fn div_fp(a: i64, b: i64) -> (r: i64)
    requires
        b != 0,
    ensures
        r as int == fp_div(a as int, b as int),
{
    let ma: u64 = i64_mag(a);
    let mb: u64 = i64_mag(b);
    proof {
        assert((ma as nat) * (SCALE as nat) <= (u64::MAX as nat) * (SCALE as nat))
            by (nonlinear_arith)
            requires
                ma <= u64::MAX,
        ;
    }
    let p: u128 = (ma as u128) * (SCALE as u128);
    let q: u128 = p / (mb as u128);
    let neg: bool = (a < 0) != (b < 0);
    proof {
        lemma_mag_mul(a as int, SCALE as int);
    }
    clamp_to_fp(neg, q)
}

/// Saturating fixed-point addition.
pub fn add_fp(a: i64, b: i64) -> (r: i64)
    ensures
        r as int == fp_add(a as int, b as int),
{
    let s: i128 = a as i128 + b as i128;
    if s > FP_MAX as i128 {
        FP_MAX
    } else if s < -(FP_MAX as i128) {
        -FP_MAX
    } else {
        s as i64
    }
}

/// Saturating fixed-point subtraction.
pub fn sub_fp(a: i64, b: i64) -> (r: i64)
    ensures
        r as int == fp_sub(a as int, b as int),
{
    let s: i128 = a as i128 - b as i128;
    if s > FP_MAX as i128 {
        FP_MAX
    } else if s < -(FP_MAX as i128) {
        -FP_MAX
    } else {
        s as i64
    }
}

/// Integer square root by bisection.
fn isqrt_u128(v: u128) -> (r: u128)
    requires
        v <= (u64::MAX as u128) * (u64::MAX as u128),
    ensures
        r as nat == sqrt_floor(v as nat),
        r <= u64::MAX,
{
    let mut lo: u128 = 0;
    let mut hi: u128 = (u64::MAX as u128) + 1;
    while lo + 1 < hi
        invariant
            (lo as nat) * (lo as nat) <= v as nat,
            (v as nat) < (hi as nat) * (hi as nat),
            lo < hi,
            hi <= (u64::MAX as u128) + 1,
        decreases hi - lo,
    {
        let mid: u128 = lo + (hi - lo) / 2;
        proof {
            assert((mid as nat) * (mid as nat) <= (u64::MAX as nat) * (u64::MAX as nat))
                by (nonlinear_arith)
                requires
                    mid <= u64::MAX,
            ;
        }
        if mid * mid <= v {
            lo = mid;
        } else {
            hi = mid;
        }
    }
    proof {
        lemma_sqrt_floor_unique(v as nat, lo as nat);
    }
    lo
}

/// Saturating fixed-point square root; zero on negative input, matching the
/// guard the simulation keeps around degenerate geometry.
pub fn sqrt_fp(v: i64) -> (r: i64)
    ensures
        r as int == fp_sqrt(v as int),
        r >= 0,
{
    if v <= 0 {
        0
    } else {
        proof {
            assert((v as nat) * (SCALE as nat) <= (FP_MAX as nat) * (SCALE as nat)
                && (FP_MAX as nat) * (SCALE as nat) <= (u64::MAX as nat) * (u64::MAX as nat))
                by (nonlinear_arith)
                requires
                    0 < v <= FP_MAX,
            ;
        }
        let p: u128 = (v as u128) * (SCALE as u128);
        let r: u128 = isqrt_u128(p);
        proof {
            lemma_sqrt_floor_bounds(p as nat);
            assert(r as nat <= FP_MAX as nat) by (nonlinear_arith)
                requires
                    (r as nat) * (r as nat) <= p as nat,
                    p as nat <= (FP_MAX as nat) * (SCALE as nat),
            ;
        }
        r as i64
    }
}

} // verus!
