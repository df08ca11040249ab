use vstd::prelude::*;
use crate::error::FilterError;
use vstd::arithmetic::div_mod::{lemma_div_is_ordered, lemma_div_is_ordered_by_denominator};

verus! {

/// The gain that stands for 1: gains are parts per billion.
pub const GAIN_ONE: u64 = 1_000_000_000;

/// The fixed point in which the exponential is evaluated: 1 is `EXP_ONE`.
pub const EXP_ONE: u128 = 1_000_000_000_000_000_000;

/// `EXP_ONE / GAIN_ONE`: how many units of the exponential make one unit of
/// gain.
pub const GAIN_RESOLUTION: u128 = 1_000_000_000;

/// Nanoseconds per second, times `EXP_ONE`.
pub const SCALED_SECOND: u128 = 1_000_000_000_000_000_000_000_000_000;

/// Above `EXP_CUTOFF / EXP_ONE` the exponential `exp(-x)` is below the
/// resolution of `EXP_ONE` and is taken as zero.
pub const EXP_CUTOFF: u128 = 64_000_000_000_000_000_000;

/// The exponent is divided by `2^EXP_HALVINGS` before the series is summed,
/// and the result squared as many times.
pub const EXP_HALVINGS: u32 = 10;

/// `2^EXP_HALVINGS`.
pub const EXP_REDUCTION: u128 = 1024;

/// Number of terms of the power series of `exp` that are summed.
pub const EXP_TERMS: u128 = 8;

/// One over the number of samples per time constant, in units of `EXP_ONE`:
/// `1 / (sample_rate * time_constant)` with the time constant in nanoseconds.
pub open spec fn exponent_of(time_constant: int, sample_rate: int) -> int {
    SCALED_SECOND as int / (sample_rate * time_constant)
}

/// The power series `1 + y + y^2/2! + ... ` of `exp(y)`, in Horner form from
/// term `n` on, in units of `EXP_ONE` and rounded down at each step.
pub open spec fn exp_series(y: int, n: nat) -> int
    decreases EXP_TERMS + 1 - n,
{
    if n == 0 || n > EXP_TERMS {
        EXP_ONE as int
    } else {
        EXP_ONE as int + y * exp_series(y, n + 1) / (n * EXP_ONE as int)
    }
}

/// `d` squared `k` times over, in units of `EXP_ONE`.
pub open spec fn square_repeatedly(d: int, k: nat) -> int
    decreases k,
{
    if k == 0 {
        d
    } else {
        square_repeatedly(d * d / EXP_ONE as int, (k - 1) as nat)
    }
}

/// `exp(-x)` in units of `EXP_ONE`, for `x` in units of `EXP_ONE`:
/// `exp(-x) = (1 / exp(x / 1024))^1024`.
pub open spec fn decay_of(x: int) -> int {
    if x >= EXP_CUTOFF {
        0
    } else {
        square_repeatedly(
            (EXP_ONE * EXP_ONE) as int / exp_series(x / EXP_REDUCTION as int, 1),
            EXP_HALVINGS as nat,
        )
    }
}

/// The per-sample gain `1 - exp(-1 / (sample_rate * time_constant))` in
/// parts of `GAIN_ONE`.
pub open spec fn gain_of(time_constant: int, sample_rate: int) -> int {
    GAIN_ONE as int - decay_of(exponent_of(time_constant, sample_rate)) / GAIN_RESOLUTION as int
}

/// Whether a gain can be derived: both inputs positive and a gain that does
/// not vanish at the resolution of `GAIN_ONE`.
pub open spec fn gain_valid(time_constant: int, sample_rate: int) -> bool {
    time_constant > 0 && sample_rate > 0 && gain_of(time_constant, sample_rate) > 0
}

proof fn lemma_series_bounds(y: int, n: nat)
    requires
        0 <= y <= EXP_ONE / 16,
    ensures
        EXP_ONE <= exp_series(y, n) <= 2 * EXP_ONE,
    decreases EXP_TERMS + 1 - n,
{
    if n == 0 || n > EXP_TERMS {
    } else {
        lemma_series_bounds(y, n + 1);
        let s = exp_series(y, n + 1);
        let e = EXP_ONE as int;
        assert(0 <= y * s / (n * e) <= e / 8) by (nonlinear_arith)
            requires
                0 <= y <= e / 16,
                e <= s <= 2 * e,
                n >= 1,
                e == 1_000_000_000_000_000_000,
        {
            assert(y * s <= (e / 16) * (2 * e));
            assert(y * s <= n * e * (e / 8));
        }
    }
}

proof fn lemma_square_bounds(d: int, k: nat)
    requires
        0 <= d <= EXP_ONE,
    ensures
        0 <= square_repeatedly(d, k) <= EXP_ONE,
    decreases k,
{
    if k > 0 {
        let e = EXP_ONE as int;
        assert(0 <= d * d / e <= e) by (nonlinear_arith)
            requires
                0 <= d <= e,
                e == 1_000_000_000_000_000_000,
        {
            assert(d * d <= e * e);
        }
        lemma_square_bounds(d * d / e, (k - 1) as nat);
    }
}

/// The decay `exp(-x)` lies in `[0, 1]`.
pub proof fn lemma_decay_bounds(x: int)
    requires
        x >= 0,
    ensures
        0 <= decay_of(x) <= EXP_ONE,
{
    if x < EXP_CUTOFF {
        let y = x / EXP_REDUCTION as int;
        lemma_series_bounds(y, 1);
        let s = exp_series(y, 1);
        let e = EXP_ONE as int;
        assert(0 <= (e * e) / s <= e) by (nonlinear_arith)
            requires
                e <= s,
                e == 1_000_000_000_000_000_000,
        {
            assert(e * e <= s * e);
        }
        lemma_square_bounds((e * e) / s, EXP_HALVINGS as nat);
    }
}

/// For positive inputs the gain lies in `[0, GAIN_ONE]`: a derived gain is
/// never above 1.
pub proof fn lemma_gain_bounds(time_constant: int, sample_rate: int)
    requires
        time_constant > 0,
        sample_rate > 0,
    ensures
        0 <= gain_of(time_constant, sample_rate) <= GAIN_ONE,
{
    assert(sample_rate * time_constant > 0) by (nonlinear_arith)
        requires
            time_constant > 0,
            sample_rate > 0,
    ;
    let x = exponent_of(time_constant, sample_rate);
    assert(x >= 0) by (nonlinear_arith)
        requires
            x == SCALED_SECOND as int / (sample_rate * time_constant),
            sample_rate * time_constant > 0,
    ;
    lemma_decay_bounds(x);
    let d = decay_of(x);
    assert(0 <= d / 1_000_000_000 <= 1_000_000_000) by (nonlinear_arith)
        requires
            0 <= d <= 1_000_000_000_000_000_000,
    ;
}

proof fn lemma_series_monotone(y1: int, y2: int, n: nat)
    requires
        0 <= y1 <= y2 <= EXP_ONE / 16,
    ensures
        exp_series(y1, n) <= exp_series(y2, n),
    decreases EXP_TERMS + 1 - n,
{
    if n == 0 || n > EXP_TERMS {
    } else {
        lemma_series_monotone(y1, y2, n + 1);
        lemma_series_bounds(y1, n + 1);
        let (s1, s2) = (exp_series(y1, n + 1), exp_series(y2, n + 1));
        let den = n * EXP_ONE as int;
        assert(y1 * s1 <= y2 * s2) by (nonlinear_arith)
            requires
                0 <= y1 <= y2,
                0 <= s1 <= s2,
        ;
        assert(den > 0) by (nonlinear_arith)
            requires
                n >= 1,
                den == n * EXP_ONE as int,
        ;
        lemma_div_is_ordered(y1 * s1, y2 * s2, den);
    }
}

proof fn lemma_square_monotone(d1: int, d2: int, k: nat)
    requires
        0 <= d1 <= d2 <= EXP_ONE,
    ensures
        square_repeatedly(d1, k) <= square_repeatedly(d2, k),
    decreases k,
{
    if k > 0 {
        let e = EXP_ONE as int;
        assert(d1 * d1 <= d2 * d2 <= e * e) by (nonlinear_arith)
            requires
                0 <= d1 <= d2 <= e,
        ;
        lemma_div_is_ordered(d1 * d1, d2 * d2, e);
        assert(0 <= d1 * d1 / e && d2 * d2 / e <= e) by (nonlinear_arith)
            requires
                0 <= d1 * d1,
                d2 * d2 <= e * e,
                e == 1_000_000_000_000_000_000,
        ;
        lemma_square_monotone(d1 * d1 / e, d2 * d2 / e, (k - 1) as nat);
    }
}

/// The decay `exp(-x)` does not grow as `x` grows.
pub proof fn lemma_decay_monotone(x1: int, x2: int)
    requires
        0 <= x1 <= x2,
    ensures
        decay_of(x2) <= decay_of(x1),
{
    lemma_decay_bounds(x1);
    lemma_decay_bounds(x2);
    if x2 < EXP_CUTOFF {
        let r = EXP_REDUCTION as int;
        lemma_div_is_ordered(x1, x2, r);
        let (y1, y2) = (x1 / r, x2 / r);
        lemma_series_monotone(y1, y2, 1);
        lemma_series_bounds(y1, 1);
        lemma_series_bounds(y2, 1);
        let (s1, s2) = (exp_series(y1, 1), exp_series(y2, 1));
        let e = EXP_ONE as int;
        lemma_div_is_ordered_by_denominator(e * e, s1, s2);
        assert(0 <= (e * e) / s2 && (e * e) / s1 <= e) by (nonlinear_arith)
            requires
                e <= s1 <= s2,
                e == 1_000_000_000_000_000_000,
        {
            assert(e * e <= s1 * e);
        }
        lemma_square_monotone((e * e) / s2, (e * e) / s1, EXP_HALVINGS as nat);
    }
}

/// For a fixed sample rate, a longer time constant never gives a larger
/// gain.
pub proof fn lemma_gain_monotone(time_constant1: int, time_constant2: int, sample_rate: int)
    requires
        0 < time_constant1 <= time_constant2,
        sample_rate > 0,
    ensures
        gain_of(time_constant2, sample_rate) <= gain_of(time_constant1, sample_rate),
{
    let (q1, q2) = (sample_rate * time_constant1, sample_rate * time_constant2);
    assert(1 <= q1 <= q2) by (nonlinear_arith)
        requires
            0 < time_constant1 <= time_constant2,
            sample_rate > 0,
            q1 == sample_rate * time_constant1,
            q2 == sample_rate * time_constant2,
    ;
    lemma_div_is_ordered_by_denominator(SCALED_SECOND as int, q1, q2);
    let (x1, x2) = (exponent_of(time_constant1, sample_rate), exponent_of(time_constant2, sample_rate));
    assert(x2 >= 0) by (nonlinear_arith)
        requires
            x2 == SCALED_SECOND as int / q2,
            q2 > 0,
    ;
    lemma_decay_monotone(x2, x1);
    lemma_div_is_ordered(decay_of(x1), decay_of(x2), GAIN_RESOLUTION as int);
}

/// A time constant of at most 1/64 of a sample period tracks instantly: the
/// gain is exactly 1.
pub proof fn lemma_gain_instant(time_constant: int, sample_rate: int)
    requires
        time_constant > 0,
        sample_rate > 0,
        64 * sample_rate * time_constant <= 1_000_000_000,
    ensures
        gain_of(time_constant, sample_rate) == GAIN_ONE,
{
    let q = sample_rate * time_constant;
    assert(0 < q <= 15_625_000) by (nonlinear_arith)
        requires
            time_constant > 0,
            sample_rate > 0,
            q == sample_rate * time_constant,
            64 * sample_rate * time_constant <= 1_000_000_000,
    ;
    lemma_div_is_ordered_by_denominator(SCALED_SECOND as int, q, 15_625_000);
    assert(SCALED_SECOND as int / 15_625_000 == EXP_CUTOFF as int);
}

/// Derives the per-sample gain of a first-order filter from its time
/// constant (nanoseconds) and the sample rate (hertz).
pub fn compute_gain(time_constant: i64, sample_rate: i32) -> (r: Result<u64, FilterError>)
    ensures
        gain_valid(time_constant as int, sample_rate as int) ==> r == Ok::<u64, FilterError>(
            gain_of(time_constant as int, sample_rate as int) as u64,
        ),
        !gain_valid(time_constant as int, sample_rate as int) ==> r == Err::<u64, FilterError>(
            FilterError::InvalidConfiguration,
        ),
        r is Ok ==> 0 < r->Ok_0 <= GAIN_ONE,
{
    if time_constant <= 0 || sample_rate <= 0 {
        return Err(FilterError::InvalidConfiguration);
    }
    proof {
        let (a, b) = (sample_rate as int, time_constant as int);
        assert(0 < a * b <= 0x8000_0000 * 0x8000_0000_0000_0000) by (nonlinear_arith)
            requires
                0 < a <= 0x8000_0000,
                0 < b <= 0x8000_0000_0000_0000,
        ;
    }
    let samples: u128 = (sample_rate as u128) * (time_constant as u128);
    let x: u128 = SCALED_SECOND / samples;
    let decay: u128 = if x >= EXP_CUTOFF {
        0
    } else {
        let y: u128 = x / EXP_REDUCTION;
        assert(y <= EXP_ONE / 16);
        let mut s: u128 = EXP_ONE;
        let mut n: u128 = EXP_TERMS;
        proof {
            lemma_series_bounds(y as int, (n + 1) as nat);
        }
        while n >= 1
            invariant
                0 <= n <= EXP_TERMS,
                y <= EXP_ONE / 16,
                s == exp_series(y as int, (n + 1) as nat),
                EXP_ONE <= s <= 2 * EXP_ONE,
            decreases n,
        {
            proof {
                lemma_series_bounds(y as int, n as nat);
                let e = EXP_ONE as int;
                let (yi, si) = (y as int, s as int);
                assert(yi * si <= 125_000_000_000_000_000_000_000_000_000_000_000) by (nonlinear_arith)
                    requires
                        0 <= yi <= 62_500_000_000_000_000,
                        0 <= si <= 2_000_000_000_000_000_000,
                ;
            }
            s = EXP_ONE + y * s / (n * EXP_ONE);
            n = n - 1;
        }
        let mut d: u128 = EXP_ONE * EXP_ONE / s;
        proof {
            let e = EXP_ONE as int;
            let si = s as int;
            assert(0 <= (e * e) / si <= e) by (nonlinear_arith)
                requires
                    e <= si,
                    e == 1_000_000_000_000_000_000,
            {
                assert(e * e <= si * e);
            }
        }
        let ghost d0 = d as int;
        let mut k: u32 = 0;
        while k < EXP_HALVINGS
            invariant
                k <= EXP_HALVINGS,
                d <= EXP_ONE,
                square_repeatedly(d as int, (EXP_HALVINGS - k) as nat) == square_repeatedly(
                    d0,
                    EXP_HALVINGS as nat,
                ),
            decreases EXP_HALVINGS - k,
        {
            proof {
                let e = EXP_ONE as int;
                assert(0 <= d * d / e <= e && d * d <= e * e) by (nonlinear_arith)
                    requires
                        0 <= d <= e,
                        e == 1_000_000_000_000_000_000,
                {
                    assert(d * d <= e * e);
                }
            }
            d = d * d / EXP_ONE;
            k = k + 1;
        }
        d
    };
    proof {
        lemma_gain_bounds(time_constant as int, sample_rate as int);
    }
    let gain: u64 = GAIN_ONE - (decay / GAIN_RESOLUTION) as u64;
    if gain == 0 {
        Err(FilterError::InvalidConfiguration)
    } else {
        Ok(gain)
    }
}

} // verus!
