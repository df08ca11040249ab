use vstd::prelude::*;
use crate::error::FilterError;
use crate::gain::{lemma_gain_bounds, GAIN_ONE};
use vstd::arithmetic::power::{lemma_pow_positive, pow};
use vstd::math::abs;
use crate::smoothing::{
    new_alpha_beta_smoother, new_exponential_smoother, AlphaBetaSmoother,
    AlphaBetaSmootherMethods, ExponentialSmoother, lemma_exponential_converges, Phase, Smoother, SmootherMethods,
};

verus! {

/// The filter after taking every sample of `xs` in order.
pub open spec fn state_after<S: SmootherMethods>(s: S, xs: Seq<i64>) -> S
    decreases xs.len(),
{
    if xs.len() == 0 {
        s
    } else {
        state_after(s, xs.drop_last()).after_step(xs.last() as int)
    }
}

/// The outputs of the filter over `xs`, one per sample and in order.
pub open spec fn outputs_of<S: SmootherMethods>(s: S, xs: Seq<i64>) -> Seq<i64>
    decreases xs.len(),
{
    if xs.len() == 0 {
        Seq::empty()
    } else {
        outputs_of(s, xs.drop_last()).push(state_after(s, xs).base().previous_value)
    }
}

/// A filter yields exactly one output per sample.
pub proof fn lemma_outputs_len<S: SmootherMethods>(s: S, xs: Seq<i64>)
    ensures
        outputs_of(s, xs).len() == xs.len(),
    decreases xs.len(),
{
    if xs.len() > 0 {
        lemma_outputs_len(s, xs.drop_last());
    }
}

/// Fed `n` copies of a constant `v`, a set-up exponential smoother ends within
/// `(1 - alpha)^n` of its starting distance to `v`.
pub proof fn lemma_exponential_converges_over_run(s: ExponentialSmoother, xs: Seq<i64>, v: i64)
    requires
        s.wf(),
        s.parent.phase.ready(),
        forall|i: int| 0 <= i < xs.len() ==> xs[i] == v,
    ensures
        state_after(s, xs).wf(),
        state_after(s, xs).parent.phase.ready(),
        state_after(s, xs).alpha == s.alpha,
        abs(state_after(s, xs).parent.previous_value - v) * pow(GAIN_ONE as int, xs.len())
            <= pow(GAIN_ONE - s.alpha, xs.len()) * abs(s.parent.previous_value - v),
    decreases xs.len(),
{
    let n = xs.len();
    if n == 0 {
        reveal(pow);
        assert(pow(GAIN_ONE as int, 0) == 1 && pow(GAIN_ONE - s.alpha, 0) == 1);
    } else {
        let init = xs.drop_last();
        lemma_exponential_converges_over_run(s, init, v);
        let before = state_after(s, init);
        assert(xs.last() == v);
        lemma_exponential_converges(before, v);
        let d0 = abs(s.parent.previous_value - v);
        let d1 = abs(before.parent.previous_value - v);
        let d2 = abs(state_after(s, xs).parent.previous_value - v);
        let o = GAIN_ONE as int;
        let k = GAIN_ONE - s.alpha;
        let (po, pk) = (pow(o, (n - 1) as nat), pow(k, (n - 1) as nat));
        lemma_pow_positive(o, (n - 1) as nat);
        reveal(pow);
        assert(pow(o, n) == o * po);
        assert(pow(k, n) == k * pk);
        lemma_gain_bounds(s.parent.time_constant as int, s.parent.sample_rate as int);
        assert(d2 * (o * po) <= (k * pk) * d0) by (nonlinear_arith)
            requires
                d2 * o <= k * d1,
                d1 * po <= pk * d0,
                0 <= k,
                0 < po,
                0 <= d1,
                0 <= d2,
        {
            assert(d2 * o * po <= k * d1 * po);
            assert(k * (d1 * po) <= k * (pk * d0));
        }
    }
}

/// Runs every sample of `signal` through a set-up filter, in order, and
/// collects the outputs.
pub fn smooth_signal<S: SmootherMethods>(signal: &Vec<i64>, smoother: &mut S) -> (r: Result<
    Vec<i64>,
    FilterError,
>)
    requires
        old(smoother).wf(),
    ensures
        final(smoother).wf(),
        old(smoother).base().phase.ready() ==> r is Ok && r->Ok_0@ == outputs_of(
            *old(smoother),
            signal@,
        ) && r->Ok_0.len() == signal.len() && *final(smoother) == state_after(
            *old(smoother),
            signal@,
        ),
        !old(smoother).base().phase.ready() ==> r == Err::<Vec<i64>, FilterError>(
            FilterError::FilterNotReady,
        ) && *final(smoother) == *old(smoother),
{
    if !smoother.is_ready() {
        return Err(FilterError::FilterNotReady);
    }
    let ghost start = *smoother;
    let mut smoothed: Vec<i64> = Vec::with_capacity(signal.len());
    let mut i: usize = 0;
    while i < signal.len()
        invariant
            i <= signal.len(),
            smoother.wf(),
            smoother.base().phase.ready(),
            *smoother == state_after(start, signal@.take(i as int)),
            smoothed@ == outputs_of(start, signal@.take(i as int)),
        decreases signal.len() - i,
    {
        let ghost before = *smoother;
        let out = smoother.step(signal[i]);
        let value = match out {
            Ok(v) => v,
            Err(e) => {
                return Err(e);
            },
        };
        smoothed.push(value);
        proof {
            let next = signal@.take(i + 1);
            assert(next.drop_last() =~= signal@.take(i as int));
            assert(next.last() == signal@[i as int]);
        }
        i = i + 1;
    }
    proof {
        assert(signal@.take(signal.len() as int) =~= signal@);
        lemma_outputs_len(start, signal@);
    }
    Ok(smoothed)
}

/// An exponential smoother configured with these settings, before `setup`.
pub open spec fn configured_exponential(
    initial_state: i64,
    time_constant: i64,
    sample_rate: i32,
) -> ExponentialSmoother {
    ExponentialSmoother {
        parent: Smoother {
            sample_rate,
            initial_state,
            time_constant,
            previous_value: 0,
            phase: Phase::Configured,
        },
        alpha: 0,
    }
}

/// An alpha-beta tracker configured with these settings, before `setup`.
pub open spec fn configured_alpha_beta(
    initial_state: i64,
    time_constant: i64,
    time_constant_velocity: i64,
    sample_rate: i32,
) -> AlphaBetaSmoother {
    AlphaBetaSmoother {
        parent: Smoother {
            sample_rate,
            initial_state,
            time_constant,
            previous_value: 0,
            phase: Phase::Configured,
        },
        time_constant_velocity,
        previous_velocity: 0,
        alpha: 0,
        beta: 0,
    }
}

/// Smooths `signal` with an exponential smoother that starts from the first
/// sample.
pub fn smooth_exponential(signal: &Vec<i64>, sample_rate: i32, time_constant: i64) -> (r: Result<
    Vec<i64>,
    FilterError,
>)
    requires
        signal.len() > 0,
    ensures
        ({
            let s = configured_exponential(signal[0], time_constant, sample_rate);
            &&& s.config_valid() ==> r is Ok && r->Ok_0@ == outputs_of(s.after_setup(), signal@)
            &&& !s.config_valid() ==> r == Err::<Vec<i64>, FilterError>(
                FilterError::InvalidConfiguration,
            )
        }),
{
    let mut smoother = new_exponential_smoother();
    smoother.set_initial_state(signal[0]);
    smoother.set_time_contant(time_constant);
    smoother.set_sample_rate(sample_rate);
    match smoother.setup() {
        Ok(()) => {},
        Err(e) => {
            return Err(e);
        },
    }
    smooth_signal(signal, &mut smoother)
}

/// Smooths `signal` with an alpha-beta tracker that starts from the first
/// sample, at rest.
pub fn smooth_alpha_beta(
    signal: &Vec<i64>,
    sample_rate: i32,
    time_constant: i64,
    time_constant_velocity: i64,
) -> (r: Result<Vec<i64>, FilterError>)
    requires
        signal.len() > 0,
    ensures
        ({
            let s = configured_alpha_beta(
                signal[0],
                time_constant,
                time_constant_velocity,
                sample_rate,
            );
            &&& s.config_valid() ==> r is Ok && r->Ok_0@ == outputs_of(s.after_setup(), signal@)
            &&& !s.config_valid() ==> r == Err::<Vec<i64>, FilterError>(
                FilterError::InvalidConfiguration,
            )
        }),
{
    let mut smoother = new_alpha_beta_smoother();
    smoother.set_initial_state(signal[0]);
    smoother.set_time_contant(time_constant);
    smoother.set_time_contant_velocity(time_constant_velocity);
    smoother.set_sample_rate(sample_rate);
    match smoother.setup() {
        Ok(()) => {},
        Err(e) => {
            return Err(e);
        },
    }
    smooth_signal(signal, &mut smoother)
}

} // verus!
