//! Fixed-point mathematics on integers scaled by `PRECISION`.
//!
//! Every function here is total: no input makes it panic, and each result is
//! pinned down exactly by a spec function, so two evaluations of the same
//! input agree bit for bit.
use vstd::arithmetic::power2::pow2;
use vstd::prelude::*;

verus! {

/// Scale of the fixed-point representation: `1.0` is `PRECISION`.
pub const PRECISION: u128 = 1_000_000_000_000;

/// Number of series terms after the constant one that `exp_approximation`
/// and the logarithm series evaluate at most.
pub const MAX_ITERATIONS: u32 = 20;

/// Value that `exp_approximation` returns for exponents beyond `50.0`.
pub const EXP_SATURATED: u128 = 0x7fff_ffff_ffff_ffff_ffff_ffff_ffff_ffff;

/// `a + b`, clamped to `u128::MAX`.
pub open spec fn sat_add(a: int, b: int) -> int {
    if a + b > u128::MAX { u128::MAX as int } else { a + b }
}

/// `a - b`, clamped to zero.
pub open spec fn sat_sub(a: int, b: int) -> int {
    if a - b < 0 { 0 } else { a - b }
}

/// `a * b`, clamped to `u128::MAX`.
pub open spec fn sat_mul(a: int, b: int) -> int {
    if a * b > u128::MAX { u128::MAX as int } else { a * b }
}

/// Saturating multiplication of two `u128` values.
pub fn saturating_mul(a: u128, b: u128) -> (r: u128)
    ensures
        r == sat_mul(a as int, b as int),
{
    match a.checked_mul(b) {
        Some(v) => v,
        None => u128::MAX,
    }
}

// ───────────────────────────── exponential ─────────────────────────────

/// Whether the series term after `term` can be formed for exponent `x`
/// without the product `term * x` leaving the `u128` range.
pub open spec fn exp_step_fits(term: int, x: int) -> bool {
    term * x <= u128::MAX
}

/// The series term of index `n` computed from the previous one:
/// `term * x / PRECISION / n`, each division rounding down.
pub open spec fn exp_next_term(term: int, x: int, n: int) -> int {
    term * x / (PRECISION as int) / n
}

/// The Taylor series of `e^x` from index `n` on, where `term` is the term of
/// index `n - 1` and `acc` the sum so far. The sum stops after the term of
/// index `MAX_ITERATIONS`, at the first term that rounds to zero, or where
/// forming the next term would overflow.
pub open spec fn exp_series(x: int, n: int, term: int, acc: int) -> int
    decreases MAX_ITERATIONS + 1 - n,
{
    if n > MAX_ITERATIONS || n < 1 {
        acc
    } else if !exp_step_fits(term, x) {
        acc
    } else {
        let t = exp_next_term(term, x, n);
        if t <= 0 {
            acc
        } else {
            exp_series(x, n + 1, t, sat_add(acc, t))
        }
    }
}

/// `e^(x / PRECISION) * PRECISION` as this library approximates it.
pub open spec fn exp_spec(x: int) -> int {
    if x == 0 {
        PRECISION as int
    } else if x > 50 * PRECISION {
        EXP_SATURATED as int
    } else {
        exp_series(x, 1, PRECISION as int, PRECISION as int)
    }
}

/// `u128::MAX / PRECISION`: no term after the first is larger.
pub open spec fn exp_term_bound() -> int {
    340_282_366_920_938_463_463_374_607
}

/// The partial sums of the series never decrease, and stay below
/// `EXP_SATURATED`: no term after the first exceeds `u128::MAX / PRECISION`.
pub proof fn lemma_exp_series_bounds(x: int, n: int, term: int, acc: int)
    requires
        1 <= n <= MAX_ITERATIONS + 1,
        0 <= acc <= PRECISION + (n - 1) * exp_term_bound(),
        x >= 1,
        0 <= term <= exp_term_bound(),
    ensures
        acc <= exp_series(x, n, term, acc) <= EXP_SATURATED,
    decreases MAX_ITERATIONS + 1 - n,
{
    if n <= MAX_ITERATIONS && exp_step_fits(term, x) {
        let t = exp_next_term(term, x, n);
        assert(t <= exp_term_bound()) by (nonlinear_arith)
            requires
                t == term * x / (PRECISION as int) / n,
                term * x <= u128::MAX,
                n >= 1,
        ;
        if t > 0 {
            lemma_exp_series_bounds(x, n + 1, t, sat_add(acc, t));
        }
    }
}

/// Whether the series for `x` from index `n` on, `term` being the term of
/// index `n - 1`, ends without a product `term * x` leaving `u128`.
pub open spec fn exp_series_fits(x: int, n: int, term: int) -> bool
    decreases MAX_ITERATIONS + 1 - n,
{
    if n > MAX_ITERATIONS || n < 1 {
        true
    } else if !exp_step_fits(term, x) {
        false
    } else {
        let t = exp_next_term(term, x, n);
        if t <= 0 {
            true
        } else {
            exp_series_fits(x, n + 1, t)
        }
    }
}

/// Whether `exp_approximation(x)` sums its series without truncation.
pub open spec fn exp_exact(x: int) -> bool {
    x <= 50 * PRECISION && exp_series_fits(x, 1, PRECISION as int)
}

/// The series never ends below its running sum.
pub proof fn lemma_exp_series_grows(x: int, n: int, term: int, acc: int)
    requires
        0 <= acc <= u128::MAX,
        x >= 0,
        term >= 0,
    ensures
        acc <= exp_series(x, n, term, acc),
    decreases MAX_ITERATIONS + 1 - n,
{
    if n <= MAX_ITERATIONS && n >= 1 && exp_step_fits(term, x) {
        let t = exp_next_term(term, x, n);
        if t > 0 {
            lemma_exp_series_grows(x, n + 1, t, sat_add(acc, t));
        }
    }
}

/// Where the larger argument's series is not truncated, the series grows
/// with its argument, its term and its running sum.
pub proof fn lemma_exp_series_monotone(
    x1: int,
    x2: int,
    n: int,
    t1: int,
    t2: int,
    a1: int,
    a2: int,
)
    requires
        0 <= x1 <= x2,
        0 <= t1 <= t2,
        0 <= a1 <= a2 <= u128::MAX,
        exp_series_fits(x2, n, t2),
    ensures
        exp_series(x1, n, t1, a1) <= exp_series(x2, n, t2, a2),
    decreases MAX_ITERATIONS + 1 - n,
{
    if n <= MAX_ITERATIONS && n >= 1 {
        assert(t1 * x1 <= t2 * x2) by (nonlinear_arith)
            requires
                0 <= x1 <= x2,
                0 <= t1 <= t2,
        ;
        let n1 = exp_next_term(t1, x1, n);
        let n2 = exp_next_term(t2, x2, n);
        assert(n1 <= n2) by (nonlinear_arith)
            requires
                n1 == t1 * x1 / (PRECISION as int) / n,
                n2 == t2 * x2 / (PRECISION as int) / n,
                0 <= t1 * x1 <= t2 * x2,
                n >= 1,
        ;
        assert(n1 >= 0) by (nonlinear_arith)
            requires
                n1 == t1 * x1 / (PRECISION as int) / n,
                0 <= t1 * x1,
                n >= 1,
        ;
        if n1 <= 0 {
            lemma_exp_series_grows(x2, n, t2, a2);
        } else {
            lemma_exp_series_monotone(x1, x2, n + 1, n1, n2, sat_add(a1, n1), sat_add(a2, n2));
        }
    }
}

/// A series cut short by overflow has already passed `1000.0`: the term
/// whose product overflowed exceeds it, and the sum holds that term.
pub proof fn lemma_exp_truncated_is_large(x: int, n: int, term: int, acc: int)
    requires
        1 <= x <= 50 * PRECISION,
        1 <= n,
        0 <= term <= acc <= u128::MAX,
        !exp_series_fits(x, n, term),
    ensures
        exp_series(x, n, term, acc) > 1000 * PRECISION,
    decreases MAX_ITERATIONS + 1 - n,
{
    if !exp_step_fits(term, x) {
        assert(term > 1000 * PRECISION) by (nonlinear_arith)
            requires
                term * x > u128::MAX,
                1 <= x <= 50 * PRECISION,
                term >= 0,
        ;
    } else {
        let t = exp_next_term(term, x, n);
        assert(t <= u128::MAX) by (nonlinear_arith)
            requires
                t == term * x / (PRECISION as int) / n,
                0 <= term * x <= u128::MAX,
                n >= 1,
        ;
        lemma_exp_truncated_is_large(x, n + 1, t, sat_add(acc, t));
    }
}

/// Between two arguments the larger of which is summed without truncation,
/// the exponential does not decrease.
pub proof fn lemma_exp_monotone(x1: int, x2: int)
    requires
        0 <= x1 <= x2,
        exp_exact(x2),
    ensures
        exp_spec(x1) <= exp_spec(x2),
{
    if x1 == 0 {
        if x2 > 0 {
            lemma_exp_series_grows(x2, 1, PRECISION as int, PRECISION as int);
        }
    } else {
        lemma_exp_series_monotone(
            x1,
            x2,
            1,
            PRECISION as int,
            PRECISION as int,
            PRECISION as int,
            PRECISION as int,
        );
    }
}

/// A series that fits for an argument and a term fits for smaller ones.
pub proof fn lemma_exp_fits_downward(x1: int, x2: int, n: int, t1: int, t2: int)
    requires
        0 <= x1 <= x2,
        0 <= t1 <= t2,
        exp_series_fits(x2, n, t2),
    ensures
        exp_series_fits(x1, n, t1),
    decreases MAX_ITERATIONS + 1 - n,
{
    if n <= MAX_ITERATIONS && n >= 1 {
        assert(t1 * x1 <= t2 * x2) by (nonlinear_arith)
            requires
                0 <= x1 <= x2,
                0 <= t1 <= t2,
        ;
        let n1 = exp_next_term(t1, x1, n);
        let n2 = exp_next_term(t2, x2, n);
        assert(0 <= n1 <= n2) by (nonlinear_arith)
            requires
                n1 == t1 * x1 / (PRECISION as int) / n,
                n2 == t2 * x2 / (PRECISION as int) / n,
                0 <= t1 * x1 <= t2 * x2,
                n >= 1,
        ;
        if n1 > 0 {
            lemma_exp_fits_downward(x1, x2, n + 1, n1, n2);
        }
    }
}

/// For `x <= 8.0` the term of index `m >= 1` is at most `2 · 4^m`, so no
/// product `term * x` of the series leaves `u128`.
pub proof fn lemma_exp_fits_small(x: int, n: int, term: int)
    requires
        0 <= x <= 8 * PRECISION,
        1 <= n,
        0 <= term,
        n == 1 ==> term <= PRECISION,
        n >= 2 ==> term <= PRECISION * pow2((2 * n - 1) as nat),
    ensures
        exp_series_fits(x, n, term),
    decreases MAX_ITERATIONS + 1 - n,
{
    if n <= MAX_ITERATIONS {
        let p = PRECISION as int;
        vstd::arithmetic::power2::lemma2_to64();
        vstd::arithmetic::power2::lemma_pow2_adds(32, 7);
        let b: int = if n == 1 { p } else { p * pow2((2 * n - 1) as nat) };
        if n >= 2 {
            if 2 * n - 1 < 39 {
                vstd::arithmetic::power2::lemma_pow2_strictly_increases(
                    (2 * n - 1) as nat,
                    39,
                );
            }
            vstd::arithmetic::power2::lemma_pow2_pos((2 * n - 1) as nat);
            assert(0 < b <= p * 549_755_813_888) by (nonlinear_arith)
                requires
                    b == p * pow2((2 * n - 1) as nat),
                    0 < pow2((2 * n - 1) as nat) <= 549_755_813_888,
                    p > 0,
            ;
        }
        assert(0 <= term * x <= term * (8 * p)) by (nonlinear_arith)
            requires
                0 <= term,
                0 <= x <= 8 * p,
        ;
        assert(term * x <= b * (8 * p) && b * (8 * p) <= u128::MAX) by (nonlinear_arith)
            requires
                0 <= term <= b,
                0 <= x <= 8 * p,
                0 < b <= p * 549_755_813_888,
                p == 1_000_000_000_000,
        ;
        let t = exp_next_term(term, x, n);
        if t > 0 {
            vstd::arithmetic::power2::lemma_pow2_adds((2 * n - 1) as nat, 2);
            assert(t <= p * pow2((2 * (n + 1) - 1) as nat)) by (nonlinear_arith)
                requires
                    t == term * x / p / n,
                    0 <= term * x <= term * (8 * p),
                    0 <= term,
                    n == 1 ==> term <= p,
                    n >= 2 ==> term <= p * pow2((2 * n - 1) as nat),
                    n >= 1,
                    p > 0,
                    pow2(3) == 8,
                    pow2((2 * n - 1 + 2) as nat) == pow2((2 * n - 1) as nat) * pow2(2),
                    pow2(2) == 4,
            ;
            lemma_exp_fits_small(x, n + 1, t);
        }
    }
}

/// `exp_spec` lies between `1.0` and `EXP_SATURATED`.
pub proof fn lemma_exp_range(x: int)
    requires
        x >= 0,
    ensures
        PRECISION <= exp_spec(x) <= EXP_SATURATED,
{
    if x > 0 && x <= 50 * PRECISION {
        lemma_exp_series_bounds(x, 1, PRECISION as int, PRECISION as int);
    }
}

/// An exponential that is not summed exactly exceeds `1000.0`.
pub proof fn lemma_exp_inexact_is_large(x: int)
    requires
        0 <= x,
        !exp_exact(x),
    ensures
        exp_spec(x) > 1000 * PRECISION,
{
    if x <= 50 * PRECISION {
        if x == 0 {
            assert(exp_series_fits(0, 1, PRECISION as int));
        }
        lemma_exp_truncated_is_large(x, 1, PRECISION as int, PRECISION as int);
    }
}

/// Approximates `e^x` for `x` scaled by `PRECISION`.
///
/// The result is `PRECISION` for `x = 0` and `EXP_SATURATED` for
/// `x > 50 * PRECISION`; otherwise it is the Taylor series with at most
/// `MAX_ITERATIONS` terms after the constant one, each term computed from the
/// previous as `term * x / PRECISION / n`, stopping early at a term that
/// rounds to zero or whose computation would overflow.
pub fn exp_approximation(x: u128) -> (r: u128)
    ensures
        r == exp_spec(x as int),
        x == 0 ==> r == PRECISION,
        PRECISION <= r <= EXP_SATURATED,
{
    if x == 0 {
        return PRECISION;
    }
    if x > PRECISION * 50 {
        return EXP_SATURATED;
    }
    proof {
        lemma_exp_series_bounds(x as int, 1, PRECISION as int, PRECISION as int);
    }
    let mut result: u128 = PRECISION;
    let mut term: u128 = PRECISION;
    let mut n: u32 = 1;
    while n <= MAX_ITERATIONS
        invariant
            1 <= n <= MAX_ITERATIONS + 1,
            0 < x <= 50 * PRECISION,
            result >= PRECISION,
            exp_series(x as int, n as int, term as int, result as int) == exp_spec(x as int),
            exp_spec(x as int) <= EXP_SATURATED,
        decreases MAX_ITERATIONS + 1 - n,
    {
        let next_term = match term.checked_mul(x) {
            Some(v) => Some(v / PRECISION / (n as u128)),
            None => None,
        };
        match next_term {
            Some(t) if t > 0 => {
                term = t;
                result = result.saturating_add(term);
            },
            _ => {
                return result;
            },
        }
        n = n + 1;
    }
    result
}


// ───────────────────────────── square root ─────────────────────────────

/// `r` is the floor of the square root of `x`.
pub open spec fn is_floor_sqrt(x: int, r: int) -> bool {
    0 <= r && r * r <= x < (r + 1) * (r + 1)
}

/// The floor of the square root of a non-negative `x`.
pub open spec fn floor_sqrt(x: int) -> int {
    choose|r: int| is_floor_sqrt(x, r)
}

/// The floor square root of a non-negative number is itself non-negative,
/// and no larger than the number.
pub proof fn lemma_floor_sqrt_nonneg(x: int)
    requires
        x >= 0,
    ensures
        0 <= floor_sqrt(x) <= x,
{
    lemma_floor_sqrt_exists(x);
    let r = floor_sqrt(x);
    assert(r <= x) by (nonlinear_arith)
        requires
            is_floor_sqrt(x, r),
    ;
}

/// Every non-negative number has a floor square root.
pub proof fn lemma_floor_sqrt_exists(x: int)
    requires
        x >= 0,
    ensures
        is_floor_sqrt(x, floor_sqrt(x)),
    decreases x,
{
    if x == 0 {
        assert(is_floor_sqrt(0, 0));
    } else {
        lemma_floor_sqrt_exists(x - 1);
        let r = floor_sqrt(x - 1);
        if (r + 1) * (r + 1) <= x {
            assert(x < (r + 2) * (r + 2)) by (nonlinear_arith)
                requires
                    x - 1 < (r + 1) * (r + 1),
                    r >= 0,
            ;
            assert(is_floor_sqrt(x, r + 1));
        } else {
            assert(is_floor_sqrt(x, r));
        }
    }
}

/// A floor square root is unique.
pub proof fn lemma_floor_sqrt_unique(x: int, a: int, b: int)
    requires
        is_floor_sqrt(x, a),
        is_floor_sqrt(x, b),
    ensures
        a == b,
{
    if a < b {
        assert((a + 1) * (a + 1) <= b * b) by (nonlinear_arith)
            requires
                0 <= a + 1 <= b,
        ;
    } else if b < a {
        assert((b + 1) * (b + 1) <= a * a) by (nonlinear_arith)
            requires
                0 <= b + 1 <= a,
        ;
    }
}

/// Floor of the square root of `x`, by binary search over `[1, x]`.
pub fn integer_sqrt(x: u128) -> (r: u128)
    ensures
        is_floor_sqrt(x as int, r as int),
        r == floor_sqrt(x as int),
{
    let r = integer_sqrt_search(x);
    proof {
        lemma_floor_sqrt_unique(x as int, r as int, floor_sqrt(x as int));
    }
    r
}

fn integer_sqrt_search(x: u128) -> (r: u128)
    ensures
        is_floor_sqrt(x as int, r as int),
{
    if x == 0 {
        assert(is_floor_sqrt(0, 0));
        return 0;
    }
    if x == 1 {
        assert(is_floor_sqrt(1, 1));
        return 1;
    }
    assert(x < (x + 1) * (x + 1)) by (nonlinear_arith)
        requires
            x >= 2,
    ;
    let mut low: u128 = 1;
    let mut high: u128 = x;
    let mut result: u128 = 0;
    while low <= high
        invariant
            2 <= x,
            1 <= low,
            high <= x,
            low <= high + 1,
            result + 1 == low,
            result * result <= x,
            x < (high + 1) * (high + 1),
        decreases high + 1 - low,
    {
        let mid = low + (high - low) / 2;
        match mid.checked_mul(mid) {
            Some(square) => {
                if square == x {
                    assert(x < (mid + 1) * (mid + 1)) by (nonlinear_arith)
                        requires
                            mid * mid == x,
                            mid >= 1,
                    ;
                    return mid;
                } else if square < x {
                    assert(mid < x) by (nonlinear_arith)
                        requires
                            mid * mid < x,
                            1 <= mid,
                    ;
                    result = mid;
                    low = mid + 1;
                } else {
                    high = mid - 1;
                }
            },
            None => {
                high = mid - 1;
            },
        }
    }
    result
}

// ───────────────────────────── power ─────────────────────────────

/// One step of binary exponentiation on fixed-point values: multiply the
/// accumulator by the base where the low bit of `e` is set, then square the
/// base while bits remain; each product is divided by `PRECISION`.
pub open spec fn pow_loop(result: int, b: int, e: nat) -> int
    decreases e,
{
    if e == 0 {
        result
    } else {
        let r2 = if e % 2 == 1 { sat_mul(result, b) / (PRECISION as int) } else { result };
        let e2 = e / 2;
        let b2 = if e2 > 0 { sat_mul(b, b) / (PRECISION as int) } else { b };
        pow_loop(r2, b2, e2)
    }
}

/// `base^exp` for a fixed-point `base` and a plain exponent, as computed by
/// saturating binary exponentiation.
pub open spec fn pow_spec(base: int, exp: nat) -> int {
    if exp == 0 {
        PRECISION as int
    } else if exp == 1 {
        base
    } else {
        pow_loop(PRECISION as int, base, exp)
    }
}

/// Raises the fixed-point `base` to the integer power `exp` by repeated
/// squaring, dividing by `PRECISION` after each multiplication.
pub fn pow(base: u128, exp: u32) -> (r: u128)
    ensures
        r == pow_spec(base as int, exp as nat),
        exp == 0 ==> r == PRECISION,
        exp == 1 ==> r == base,
{
    if exp == 0 {
        return PRECISION;
    }
    if exp == 1 {
        return base;
    }
    let mut result: u128 = PRECISION;
    let mut b: u128 = base;
    let mut e: u32 = exp;
    while e > 0
        invariant
            exp >= 2,
            pow_loop(result as int, b as int, e as nat) == pow_spec(base as int, exp as nat),
        decreases e,
    {
        if e % 2 == 1 {
            result = saturating_mul(result, b) / PRECISION;
        }
        e = e / 2;
        if e > 0 {
            b = saturating_mul(b, b) / PRECISION;
        }
    }
    result
}

// ───────────────────────────── sigmoid ─────────────────────────────

/// The logistic function `1 / (1 + e^(-x))` in fixed point, with the sign
/// of `x` given apart from its magnitude.
pub open spec fn sigmoid_spec(x: int, is_negative: bool) -> int {
    let e = exp_spec(x);
    let p = PRECISION as int;
    if is_negative {
        sat_mul(p, p) / sat_add(p, e)
    } else if e >= EXP_SATURATED {
        p
    } else {
        sat_mul(e, p) / sat_add(e, p)
    }
}

/// The logistic function of `x` (negated when `is_negative`), scaled by
/// `PRECISION`: `1 / (1 + e^|x|)` for a negative argument and
/// `e^|x| / (e^|x| + 1)` for a positive one, which is exactly `1.0` once the
/// exponential saturates.
pub fn sigmoid(x: u128, is_negative: bool) -> (r: u128)
    ensures
        r == sigmoid_spec(x as int, is_negative),
        r <= PRECISION,
        x == 0 ==> r == PRECISION / 2,
{
    let e_power = exp_approximation(x);
    if is_negative {
        let denominator = PRECISION.saturating_add(e_power);
        let r = PRECISION * PRECISION / denominator;
        assert(r <= PRECISION) by (nonlinear_arith)
            requires
                r as int == (PRECISION * PRECISION) as int / denominator as int,
                denominator >= PRECISION,
        ;
        if x == 0 {
            assert(denominator == 2 * PRECISION);
            assert((PRECISION * PRECISION) as int / (2 * PRECISION) as int == PRECISION / 2);
        }
        r
    } else {
        if e_power >= EXP_SATURATED {
            return PRECISION;
        }
        let denominator = e_power + PRECISION;
        let num = saturating_mul(e_power, PRECISION);
        let r = num / denominator;
        assert(r <= PRECISION) by (nonlinear_arith)
            requires
                r as int == num as int / denominator as int,
                num <= e_power * PRECISION,
                denominator == e_power + PRECISION,
                e_power > 0,
        ;
        if x == 0 {
            assert(r == PRECISION / 2) by (nonlinear_arith)
                requires
                    r as int == num as int / denominator as int,
                    num == PRECISION * PRECISION,
                    denominator == 2 * PRECISION,
            ;
        }
        r
    }
}


// ───────────────────────────── logarithm ─────────────────────────────

/// `ln(2) * PRECISION`, rounded down.
pub const LN_2: u128 = 693_147_180_559;

/// Where the logarithm series is evaluated directly: `0.5 < x < 3.0`.
pub open spec fn ln_in_band(x: int) -> bool {
    (PRECISION as int) / 2 < x < 3 * PRECISION
}

/// The alternating series `y - y^2/2 + y^3/3 - ...` from index `n` on, where
/// `term` is `y^n` in fixed point, `positive` the sign of the next
/// contribution and `result` the sum so far. It stops after index
/// `MAX_ITERATIONS` or at the first contribution `term / n` that rounds to zero.
pub open spec fn ln_series(y: int, n: int, term: int, positive: bool, result: int) -> int
    decreases MAX_ITERATIONS + 1 - n,
{
    if n > MAX_ITERATIONS || n < 1 {
        result
    } else {
        let c = term / n;
        if c <= 0 {
            result
        } else {
            let r2 = if positive { sat_add(result, c) } else { sat_sub(result, c) };
            ln_series(y, n + 1, sat_mul(term, y) / (PRECISION as int), !positive, r2)
        }
    }
}

/// The series evaluated on `y = |x - PRECISION| * PRECISION / x`, its first
/// contribution positive exactly when `x > PRECISION`.
pub open spec fn ln_band(x: int) -> int {
    let p = PRECISION as int;
    let y = if x > p { x - p } else { p - x };
    let y_scaled = sat_mul(y, p) / x;
    ln_series(y_scaled, 1, y_scaled, x > p, 0)
}

/// The logarithm of an argument that needs no range reduction.
pub open spec fn ln_core(x: int) -> int {
    if x == 0 || x == PRECISION {
        0
    } else if ln_in_band(x) {
        ln_band(x)
    } else {
        0
    }
}

/// How many times `v` is halved (rounding down) until it is at most `2.0`.
pub open spec fn halvings(v: int) -> nat
    decreases v,
{
    if v > 2 * PRECISION { 1 + halvings(v / 2) } else { 0 }
}

/// `v` after those halvings.
pub open spec fn halved(v: int) -> int
    decreases v,
{
    if v > 2 * PRECISION { halved(v / 2) } else { v }
}

/// How many times a positive `v` below `1.0` is doubled until it reaches `1.0`.
pub open spec fn doublings(v: int) -> nat
    decreases 2 * PRECISION - v,
{
    if 0 < v < PRECISION { 1 + doublings(2 * v) } else { 0 }
}

/// `v` after those doublings.
pub open spec fn doubled(v: int) -> int
    decreases 2 * PRECISION - v,
{
    if 0 < v < PRECISION { doubled(2 * v) } else { v }
}

/// `x` brought into `[1.0, 2.0]` by halving, then doubling.
pub open spec fn ln_normalized(x: int) -> int {
    doubled(halved(x))
}

/// The power of two taken out of `x` by the normalization.
pub open spec fn ln_log2_count(x: int) -> int {
    halvings(x) - doublings(halved(x))
}

/// `ln(x / PRECISION) * PRECISION` as this library approximates it: zero for
/// `x = 0` by convention. The result is unsigned: where the logarithm would
/// be negative, the saturating subtractions leave a small non-negative
/// value, often zero.
pub open spec fn ln_spec(x: int) -> int {
    if x == 0 || x == PRECISION || ln_in_band(x) {
        ln_core(x)
    } else {
        let base = ln_core(ln_normalized(x));
        let c = ln_log2_count(x);
        if c >= 0 {
            sat_add(base, sat_mul(LN_2 as int, c))
        } else {
            sat_sub(base, sat_mul(LN_2 as int, -c))
        }
    }
}

proof fn lemma_halved_range(v: int)
    requires
        v > 0,
    ensures
        0 < halved(v) <= 2 * PRECISION,
        v > 2 * PRECISION ==> halved(v) >= PRECISION,
        v <= 2 * PRECISION ==> halved(v) == v && halvings(v) == 0,
    decreases v,
{
    if v > 2 * PRECISION {
        lemma_halved_range(v / 2);
    }
}

proof fn lemma_doubled_range(v: int)
    requires
        0 < v <= 2 * PRECISION,
    ensures
        PRECISION <= doubled(v) <= 2 * PRECISION,
        v >= PRECISION ==> doubled(v) == v && doublings(v) == 0,
    decreases 2 * PRECISION - v,
{
    if v < PRECISION {
        lemma_doubled_range(2 * v);
    }
}

proof fn lemma_halvings_bound(v: int, k: nat)
    requires
        0 <= v < pow2(k),
    ensures
        halvings(v) <= k,
    decreases v,
{
    if v > 2 * PRECISION {
        if k == 0 {
            assert(pow2(0) == 1) by {
                vstd::arithmetic::power2::lemma2_to64();
            }
        } else {
            vstd::arithmetic::power2::lemma_pow2_unfold(k);
            lemma_halvings_bound(v / 2, (k - 1) as nat);
        }
    }
}

proof fn lemma_doublings_bound(v: int, k: nat)
    requires
        0 < v,
        v * pow2(k) >= PRECISION,
    ensures
        doublings(v) <= k,
    decreases 2 * PRECISION - v,
{
    if v < PRECISION {
        if k == 0 {
            assert(pow2(0) == 1) by {
                vstd::arithmetic::power2::lemma2_to64();
            }
            assert(v * pow2(k) == v) by (nonlinear_arith)
                requires
                    pow2(k) == 1,
            ;
        } else {
            vstd::arithmetic::power2::lemma_pow2_unfold(k);
            assert(v * pow2(k) == (2 * v) * pow2((k - 1) as nat)) by (nonlinear_arith)
                requires
                    pow2(k) == 2 * pow2((k - 1) as nat),
            ;
            lemma_doublings_bound(2 * v, (k - 1) as nat);
        }
    }
}

/// Every `u128` is halved at most 128 times, and every positive value below
/// `2.0` is doubled at most 40 times.
proof fn lemma_normalization_counts(x: int)
    requires
        0 < x <= u128::MAX,
    ensures
        halvings(x) <= 128,
        doublings(halved(x)) <= 40,
{
    vstd::arithmetic::power2::lemma2_to64();
    vstd::arithmetic::power2::lemma_pow2_adds(64, 64);
    vstd::arithmetic::power2::lemma_pow2_adds(32, 8);
    lemma_halvings_bound(x, 128);
    lemma_halved_range(x);
    assert(halved(x) * pow2(40) >= PRECISION) by (nonlinear_arith)
        requires
            halved(x) >= 1,
            pow2(40) == 0x10000000000,
    ;
    lemma_doublings_bound(halved(x), 40);
}

/// Approximates the natural logarithm of `x`, scaled by `PRECISION`.
///
/// For `0.5 < x < 3.0` the series `ln(1 + y)` is summed directly with
/// `y = (x - 1) / x`; other arguments are halved or doubled into
/// `[1.0, 2.0]` and `LN_2` is added or subtracted (saturating) once per
/// step. `x = 0` gives 0 as a fallback, and `x = 1.0` gives exactly 0.
pub fn ln_approximation(x: u128) -> (r: u128)
    ensures
        r == ln_spec(x as int),
        x == 0 ==> r == 0,
        x == PRECISION ==> r == 0,
    decreases (if ln_in_band(x as int) { 0int } else { 1int }),
{
    if x == 0 {
        return 0;
    }
    if x == PRECISION {
        return 0;
    }
    if x > PRECISION / 2 && x < PRECISION * 3 {
        let y = if x > PRECISION { x - PRECISION } else { PRECISION - x };
        let y_scaled = saturating_mul(y, PRECISION) / x;
        let mut result: u128 = 0;
        let mut term: u128 = y_scaled;
        let mut sign_positive: bool = x > PRECISION;
        let mut n: u32 = 1;
        while n <= MAX_ITERATIONS
            invariant
                1 <= n <= MAX_ITERATIONS + 1,
                ln_in_band(x as int),
                x != PRECISION,
                ln_series(y_scaled as int, n as int, term as int, sign_positive, result as int)
                    == ln_spec(x as int),
            decreases MAX_ITERATIONS + 1 - n,
        {
            let contribution = term / (n as u128);
            if contribution == 0 {
                return result;
            }
            if sign_positive {
                result = result.saturating_add(contribution);
            } else {
                result = result.saturating_sub(contribution);
            }
            term = saturating_mul(term, y_scaled) / PRECISION;
            sign_positive = !sign_positive;
            n = n + 1;
        }
        return result;
    }
    proof {
        lemma_normalization_counts(x as int);
        lemma_halved_range(x as int);
        lemma_doubled_range(halved(x as int));
    }
    let mut value: u128 = x;
    let mut log2_count: i32 = 0;
    while value > PRECISION * 2
        invariant
            0 < value <= x,
            0 <= log2_count,
            halved(value as int) == halved(x as int),
            halvings(x as int) == log2_count + halvings(value as int),
            halvings(x as int) <= 128,
        decreases value,
    {
        value = value / 2;
        log2_count = log2_count + 1;
    }
    proof {
        lemma_halved_range(value as int);
    }
    while value > 0 && value < PRECISION
        invariant
            0 < value <= 2 * PRECISION,
            doubled(value as int) == ln_normalized(x as int),
            log2_count == ln_log2_count(x as int) + doublings(value as int),
            doublings(halved(x as int)) <= 40,
            halvings(x as int) <= 128,
            -40 <= ln_log2_count(x as int),
        decreases 2 * PRECISION - value,
    {
        value = value * 2;
        log2_count = log2_count - 1;
    }
    proof {
        lemma_doubled_range(value as int);
    }
    let ln_normalized = ln_approximation(value);
    if log2_count >= 0 {
        ln_normalized.saturating_add(saturating_mul(LN_2, log2_count as u128))
    } else {
        ln_normalized.saturating_sub(saturating_mul(LN_2, (-log2_count) as u128))
    }
}

} // verus!
