//! The emission curve: cumulative supply as a sigmoid of the effective
//! height, and the block reward as its derivative.
use vstd::prelude::*;

use crate::math::{
    PRECISION, exp_approximation, exp_exact, exp_spec, lemma_exp_fits_downward,
    lemma_exp_inexact_is_large, lemma_exp_monotone, lemma_exp_fits_small, lemma_exp_range, sat_mul, sat_sub,
    saturating_mul,
};
use crate::pallet::{BLOCKS_PER_YEAR, Config, MAX_SUPPLY, Pallet};

verus! {

/// Magnitude of the curve's exponent `k · |t - t0| / PRECISION` at height `h`.
pub open spec fn supply_exponent(cfg: Config, h: int) -> int {
    let t0 = cfg.inflection_point as int;
    if h >= t0 {
        sat_mul(h - t0, cfg.growth_rate_k as int) / (PRECISION as int)
    } else {
        sat_mul(t0 - h, cfg.growth_rate_k as int) / (PRECISION as int)
    }
}

/// Denominator `1 + e^(-k(t - t0))` of the curve, scaled by `PRECISION`, from
/// `e = e^(k|t - t0|)`: for heights past the inflection point `e^(-x)`
/// counts as zero once `e` exceeds `1000.0`.
pub open spec fn supply_denominator(past_inflection: bool, e: int) -> int {
    let p = PRECISION as int;
    if past_inflection {
        if e > 1000 * p {
            p
        } else if e == 0 {
            2 * p
        } else {
            p + p * p / e
        }
    } else {
        p + e
    }
}

/// Cumulative supply `MAX_SUPPLY / (1 + e^(-k(t - t0)))` at effective height `h`.
pub open spec fn supply_at(cfg: Config, h: int) -> int {
    let den = supply_denominator(
        h >= cfg.inflection_point as int,
        exp_spec(supply_exponent(cfg, h)),
    );
    if den == 0 {
        MAX_SUPPLY as int
    } else {
        (MAX_SUPPLY * PRECISION) as int / den
    }
}

/// Block reward `k · S(t) · (1 - S(t) / MAX_SUPPLY)` at effective height `h`,
/// divided by the blocks in a year.
pub open spec fn reward_at(cfg: Config, h: int) -> int {
    let p = PRECISION as int;
    let s = supply_at(cfg, h);
    let supply_ratio = sat_mul(s, p) / (MAX_SUPPLY as int);
    let remaining = sat_sub(p, supply_ratio);
    let raw = sat_mul(sat_mul(cfg.growth_rate_k as int, s), remaining) / p / p;
    raw / (BLOCKS_PER_YEAR as int)
}

/// The exponent grows with the distance from the inflection point.
proof fn lemma_exponent_ordered(cfg: Config, d1: int, d2: int)
    requires
        0 <= d1 <= d2,
    ensures
        sat_mul(d1, cfg.growth_rate_k as int) / (PRECISION as int) <= sat_mul(
            d2,
            cfg.growth_rate_k as int,
        ) / (PRECISION as int),
        0 <= sat_mul(d1, cfg.growth_rate_k as int) / (PRECISION as int),
{
    let k = cfg.growth_rate_k as int;
    assert(0 <= d1 * k <= d2 * k) by (nonlinear_arith)
        requires
            0 <= d1 <= d2,
            k >= 0,
    ;
    assert(sat_mul(d1, k) / (PRECISION as int) <= sat_mul(d2, k) / (PRECISION as int))
        by (nonlinear_arith)
        requires
            0 <= sat_mul(d1, k) <= sat_mul(d2, k),
    ;
}

/// `MAX_SUPPLY · PRECISION / den` does not grow with `den`, and stays within
/// `MAX_SUPPLY` for `den >= PRECISION`.
proof fn lemma_supply_ordered(den1: int, den2: int)
    requires
        PRECISION <= den2 <= den1,
    ensures
        (MAX_SUPPLY * PRECISION) as int / den1 <= (MAX_SUPPLY * PRECISION) as int / den2,
        (MAX_SUPPLY * PRECISION) as int / den2 <= MAX_SUPPLY,
{
    let a = (MAX_SUPPLY * PRECISION) as int;
    assert(a / den1 <= a / den2) by (nonlinear_arith)
        requires
            0 < den2 <= den1,
            a >= 0,
    ;
    assert(a / den2 <= MAX_SUPPLY) by (nonlinear_arith)
        requires
            PRECISION <= den2,
            a == MAX_SUPPLY * PRECISION,
    ;
}

/// The supply lies in `[0, MAX_SUPPLY]` and the block reward is never negative.
pub proof fn lemma_curve_ranges(cfg: Config, h: int)
    requires
        h >= 0,
    ensures
        0 <= supply_at(cfg, h) <= MAX_SUPPLY,
        0 <= reward_at(cfg, h),
{
    let t0 = cfg.inflection_point as int;
    let p = PRECISION as int;
    if h >= t0 {
        lemma_exponent_ordered(cfg, h - t0, h - t0);
    } else {
        lemma_exponent_ordered(cfg, t0 - h, t0 - h);
    }
    let e = exp_spec(supply_exponent(cfg, h));
    lemma_exp_range(supply_exponent(cfg, h));
    assert(p * p / e <= p) by (nonlinear_arith)
        requires
            e >= p,
            p > 0,
    ;
    let den = supply_denominator(h >= t0, e);
    lemma_supply_ordered(den, den);
    let s = supply_at(cfg, h);
    let k = cfg.growth_rate_k as int;
    assert(0 <= sat_mul(k, s)) by (nonlinear_arith)
        requires
            0 <= k,
            0 <= s,
    ;
    let remaining = sat_sub(p, sat_mul(s, p) / (MAX_SUPPLY as int));
    assert(0 <= sat_mul(sat_mul(k, s), remaining)) by (nonlinear_arith)
        requires
            0 <= sat_mul(k, s),
            0 <= remaining,
    ;
}

/// The cumulative supply never decreases as the effective height grows, and
/// stays within `MAX_SUPPLY`, provided the exponential is summed without
/// truncation at every height before the inflection point (the largest such
/// exponent is the one at height zero).
pub proof fn lemma_supply_monotone(cfg: Config, h1: int, h2: int)
    requires
        0 <= h1 <= h2,
        exp_exact(supply_exponent(cfg, 0)),
    ensures
        supply_at(cfg, h1) <= supply_at(cfg, h2),
        0 <= supply_at(cfg, h2) <= MAX_SUPPLY,
{
    let t0 = cfg.inflection_point as int;
    let p = PRECISION as int;
    let x1 = supply_exponent(cfg, h1);
    let x2 = supply_exponent(cfg, h2);
    let e1 = exp_spec(x1);
    let e2 = exp_spec(x2);
    let past1 = h1 >= t0;
    let past2 = h2 >= t0;
    if past1 {
        lemma_exponent_ordered(cfg, h1 - t0, h2 - t0);
    } else if past2 {
        lemma_exponent_ordered(cfg, 0, t0 - h1);
        lemma_exponent_ordered(cfg, 0, h2 - t0);
    } else {
        lemma_exponent_ordered(cfg, t0 - h2, t0 - h1);
        lemma_exponent_ordered(cfg, t0 - h1, t0);
    }
    lemma_exp_range(x1);
    lemma_exp_range(x2);
    let den1 = supply_denominator(past1, e1);
    let den2 = supply_denominator(past2, e2);
    assert(p * p / e1 <= p && p * p / e2 <= p) by (nonlinear_arith)
        requires
            e1 >= p,
            e2 >= p,
            p > 0,
    ;
    if past1 {
        if e2 <= 1000 * p {
            if !exp_exact(x2) {
                lemma_exp_inexact_is_large(x2);
            }
            lemma_exp_monotone(x1, x2);
            assert(p * p / e2 <= p * p / e1) by (nonlinear_arith)
                requires
                    p <= e1 <= e2,
                    p > 0,
            ;
        }
    } else if !past2 {
        lemma_exp_fits_downward(x1, supply_exponent(cfg, 0), 1, p, p);
        lemma_exp_monotone(x2, x1);
    }
    assert(p <= den2 <= den1);
    lemma_supply_ordered(den1, den2);
}

/// A curve whose exponent before the inflection point stays within `8.0`
/// (`t0 · k <= 8 · PRECISION²`, as in the default configuration) sums the
/// exponential without truncation, so `lemma_supply_monotone` applies to it.
pub proof fn lemma_moderate_curve_is_exact(cfg: Config)
    requires
        cfg.inflection_point * cfg.growth_rate_k <= 8 * PRECISION * PRECISION,
    ensures
        exp_exact(supply_exponent(cfg, 0)),
{
    let x = supply_exponent(cfg, 0);
    let p = PRECISION as int;
    if cfg.inflection_point > 0 {
        assert(x <= 8 * p) by (nonlinear_arith)
            requires
                x == sat_mul(cfg.inflection_point as int, cfg.growth_rate_k as int) / p,
                cfg.inflection_point * cfg.growth_rate_k <= 8 * p * p,
                p == 1_000_000_000_000,
        ;
    } else {
        lemma_exponent_ordered(cfg, 0, 0);
    }
    lemma_exponent_ordered(cfg, 0, cfg.inflection_point as int);
    lemma_exp_fits_small(x, 1, p);
}

/// Where the curve has emitted the whole supply, the block reward is zero.
pub proof fn lemma_reward_vanishes_at_full_supply(cfg: Config, h: int)
    requires
        supply_at(cfg, h) == MAX_SUPPLY,
    ensures
        reward_at(cfg, h) == 0,
{
    let p = PRECISION as int;
    let s = supply_at(cfg, h);
    assert(sat_mul(s, p) / (MAX_SUPPLY as int) == p) by (nonlinear_arith)
        requires
            p == 1_000_000_000_000,
            s == MAX_SUPPLY,
    ;
    let remaining = sat_sub(p, sat_mul(s, p) / (MAX_SUPPLY as int));
    assert(remaining == 0);
    let ks = sat_mul(cfg.growth_rate_k as int, s);
    assert(sat_mul(ks, remaining) == 0) by (nonlinear_arith)
        requires
            remaining == 0,
    ;
}

impl Pallet {
    /// Cumulative supply that the curve prescribes at `effective_height`;
    /// never more than `MAX_SUPPLY`.
    pub fn sigmoid_supply(&self, effective_height: u128) -> (r: u128)
        ensures
            r == supply_at(self.config, effective_height as int),
            r <= MAX_SUPPLY,
    {
        let k = self.config.growth_rate_k;
        let t0 = self.config.inflection_point as u128;
        let is_negative = effective_height >= t0;
        let exponent = if is_negative {
            saturating_mul(effective_height - t0, k) / PRECISION
        } else {
            saturating_mul(t0 - effective_height, k) / PRECISION
        };
        let e_power = exp_approximation(exponent);
        let denominator = if is_negative {
            if e_power > PRECISION * 1000 {
                PRECISION
            } else if e_power == 0 {
                PRECISION * 2
            } else {
                PRECISION + PRECISION * PRECISION / e_power
            }
        } else {
            PRECISION + e_power
        };
        if denominator == 0 {
            return MAX_SUPPLY;
        }
        assert(denominator >= PRECISION);
        let r = MAX_SUPPLY * PRECISION / denominator;
        assert(r <= MAX_SUPPLY) by (nonlinear_arith)
            requires
                r as int == (MAX_SUPPLY * PRECISION) as int / denominator as int,
                denominator >= PRECISION,
        ;
        r
    }

    /// Reward per block at `effective_height`: the curve's derivative
    /// `k · S(t) · (1 - S(t) / MAX_SUPPLY)`, turned from an annual figure
    /// into a per-block one.
    pub fn calculate_block_reward(&self, effective_height: u128) -> (r: u128)
        ensures
            r == reward_at(self.config, effective_height as int),
    {
        let k = self.config.growth_rate_k;
        let current_supply = self.sigmoid_supply(effective_height);
        let supply_ratio = saturating_mul(current_supply, PRECISION) / MAX_SUPPLY;
        let remaining_ratio = PRECISION.saturating_sub(supply_ratio);
        let reward_raw = saturating_mul(saturating_mul(k, current_supply), remaining_ratio)
            / PRECISION / PRECISION;
        reward_raw / BLOCKS_PER_YEAR
    }
}

} // verus!
