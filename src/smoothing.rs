use vstd::prelude::*;
use crate::error::FilterError;
use crate::gain::{compute_gain, gain_of, gain_valid, lemma_gain_bounds, GAIN_ONE};

verus! {

/// Where a filter stands in its configure, set up, stream lifecycle.
#[derive(Debug, Clone, Copy, PartialEq, Eq, Structural)]
pub enum Phase {
    /// Freshly made; no setter called yet.
    Unconfigured,
    /// Configuration set or changed since the last successful `setup`.
    Configured,
    /// Set up; no sample taken since.
    Ready,
    /// Set up and at least one sample taken.
    Streaming,
}

impl Phase {
    /// Whether `step` may be called.
    pub open spec fn ready(self) -> bool {
        self == Phase::Ready || self == Phase::Streaming
    }
}

/// `trunc(k * d / GAIN_ONE)`: `d` scaled by the gain `k`, rounded toward zero.
pub open spec fn scale_toward_zero(k: int, d: int) -> int {
    if d >= 0 {
        k * d / GAIN_ONE as int
    } else {
        -((k * -d) / GAIN_ONE as int)
    }
}

/// One step of exponential smoothing, `gain * sample + (1 - gain) * previous`,
/// written as `sample + (1 - gain) * (previous - sample)` and rounded toward
/// `sample`.
pub open spec fn blend(previous: int, sample: int, gain: int) -> int {
    sample + scale_toward_zero(GAIN_ONE - gain, previous - sample)
}

/// `v` held within the range of `i64`.
pub open spec fn saturate(v: int) -> int {
    if v > i64::MAX {
        i64::MAX as int
    } else if v < i64::MIN {
        i64::MIN as int
    } else {
        v
    }
}

/// The position that a constant-velocity model predicts one sample ahead;
/// the velocity is counted in units per sample.
pub open spec fn predict(position: int, velocity: int) -> int {
    saturate(position + velocity)
}

/// The tracker's corrected position: the prediction moved toward the sample
/// by the gain `alpha`.
pub open spec fn track_position(position: int, velocity: int, sample: int, alpha: int) -> int {
    blend(predict(position, velocity), sample, alpha)
}

/// The tracker's corrected velocity: the residual of the prediction, scaled
/// by the gain `beta`, added to the velocity.
pub open spec fn track_velocity(position: int, velocity: int, sample: int, beta: int) -> int {
    saturate(velocity + scale_toward_zero(beta, sample - predict(position, velocity)))
}

proof fn lemma_scale_bounds(k: int, d: int)
    requires
        0 <= k <= GAIN_ONE,
    ensures
        d >= 0 ==> 0 <= scale_toward_zero(k, d) <= d,
        d < 0 ==> d <= scale_toward_zero(k, d) <= 0,
{
    let m = if d >= 0 { d } else { -d };
    assert(0 <= k * m / GAIN_ONE as int <= m) by (nonlinear_arith)
        requires
            0 <= k <= GAIN_ONE,
            0 <= m,
    {
        assert(k * m <= GAIN_ONE * m);
    }
}

/// A step of exponential smoothing with a gain in `[0, 1]` lands between the
/// previous output and the sample.
pub proof fn lemma_blend_between(previous: int, sample: int, gain: int)
    requires
        0 <= gain <= GAIN_ONE,
    ensures
        vstd::math::min(previous, sample) <= blend(previous, sample, gain),
        blend(previous, sample, gain) <= vstd::math::max(previous, sample),
{
    lemma_scale_bounds(GAIN_ONE - gain, previous - sample);
}

/// Against a constant input `v`, one step of exponential smoothing shrinks the
/// distance to `v` by the factor `1 - gain` (rounded down).
pub proof fn lemma_blend_contracts(previous: int, v: int, gain: int)
    requires
        0 <= gain <= GAIN_ONE,
    ensures
        vstd::math::abs(blend(previous, v, gain) - v) == (GAIN_ONE - gain) * vstd::math::abs(
            previous - v,
        ) / GAIN_ONE as int,
        vstd::math::abs(blend(previous, v, gain) - v) * GAIN_ONE <= (GAIN_ONE - gain)
            * vstd::math::abs(previous - v),
{
    lemma_scale_bounds(GAIN_ONE - gain, previous - v);
    let k = GAIN_ONE - gain;
    let m = vstd::math::abs(previous - v);
    assert((k * m / GAIN_ONE as int) * GAIN_ONE <= k * m) by (nonlinear_arith)
        requires
            0 <= k,
            0 <= m,
    ;
}

fn scale_toward_zero_exec(k: u64, d: i128) -> (r: i128)
    requires
        k <= GAIN_ONE,
        -0x4_0000_0000_0000_0000 <= d <= 0x4_0000_0000_0000_0000,
    ensures
        r == scale_toward_zero(k as int, d as int),
        d >= 0 ==> 0 <= r <= d,
        d < 0 ==> d <= r <= 0,
{
    let m: u128 = if d >= 0 { d as u128 } else { (-d) as u128 };
    proof {
        let (ki, mi) = (k as int, m as int);
        assert(0 <= ki * mi <= GAIN_ONE * 0x4_0000_0000_0000_0000) by (nonlinear_arith)
            requires
                0 <= ki <= GAIN_ONE,
                0 <= mi <= 0x4_0000_0000_0000_0000,
        ;
        assert(ki * mi / GAIN_ONE as int <= mi) by (nonlinear_arith)
            requires
                0 <= ki <= GAIN_ONE,
                0 <= mi,
        {
            assert(ki * mi <= GAIN_ONE * mi);
        }
    }
    let q: u128 = (k as u128) * m / (GAIN_ONE as u128);
    if d >= 0 {
        q as i128
    } else {
        -(q as i128)
    }
}

fn blend_exec(previous: i64, sample: i64, gain: u64) -> (r: i64)
    requires
        gain <= GAIN_ONE,
    ensures
        r == blend(previous as int, sample as int, gain as int),
{
    let s: i128 = scale_toward_zero_exec(GAIN_ONE - gain, previous as i128 - sample as i128);
    (sample as i128 + s) as i64
}

fn saturate_exec(v: i128) -> (r: i64)
    ensures
        r == saturate(v as int),
{
    if v > i64::MAX as i128 {
        i64::MAX
    } else if v < i64::MIN as i128 {
        i64::MIN
    } else {
        v as i64
    }
}

/// Configuration, phase and last output shared by every filter.
#[derive(Debug, Clone, Copy)]
pub struct Smoother {
    /// Samples per second.
    pub sample_rate: i32,
    /// Output before the first sample.
    pub initial_state: i64,
    /// Time constant of the output, in nanoseconds.
    pub time_constant: i64,
    /// The last output (the position, for the tracker).
    pub previous_value: i64,
    pub phase: Phase,
}

impl Smoother {
    /// The shared part of a filter that has not been configured.
    pub open spec fn unconfigured() -> Smoother {
        Smoother {
            sample_rate: 0,
            initial_state: 0,
            time_constant: 0,
            previous_value: 0,
            phase: Phase::Unconfigured,
        }
    }

    pub open spec fn with_sample_rate(self, rate: i32) -> Smoother {
        Smoother { sample_rate: rate, phase: Phase::Configured, ..self }
    }

    pub open spec fn with_initial_state(self, state: i64) -> Smoother {
        Smoother { initial_state: state, phase: Phase::Configured, ..self }
    }

    pub open spec fn with_time_constant(self, constant: i64) -> Smoother {
        Smoother { time_constant: constant, phase: Phase::Configured, ..self }
    }

    /// The output reseeded from the initial state, ready for the first sample.
    pub open spec fn seeded(self) -> Smoother {
        Smoother { previous_value: self.initial_state, phase: Phase::Ready, ..self }
    }

    /// The last output replaced by `value`, in the streaming phase.
    pub open spec fn emitted(self, value: int) -> Smoother {
        Smoother { previous_value: value as i64, phase: Phase::Streaming, ..self }
    }

    fn new() -> (r: Smoother)
        ensures
            r == Smoother::unconfigured(),
    {
        Smoother {
            sample_rate: 0,
            initial_state: 0,
            time_constant: 0,
            previous_value: 0,
            phase: Phase::Unconfigured,
        }
    }

    /// Whether the position gain can be derived from this configuration.
    pub open spec fn gain_valid(self) -> bool {
        gain_valid(self.time_constant as int, self.sample_rate as int)
    }

    /// The position gain this configuration gives.
    pub open spec fn gain(self) -> int {
        gain_of(self.time_constant as int, self.sample_rate as int)
    }
}

/// The operations every filter offers: configure, set up, then step through
/// the samples in order.
pub trait SmootherMethods: Sized {
    /// The derived gains agree with the configuration whenever the filter is
    /// ready.
    spec fn wf(&self) -> bool;

    /// Configuration, phase and last output.
    spec fn base(&self) -> Smoother;

    /// The filter with its shared part replaced and all else kept.
    spec fn with_base(&self, base: Smoother) -> Self;

    /// Whether `setup` succeeds on the present configuration.
    spec fn config_valid(&self) -> bool;

    /// The filter as a successful `setup` leaves it.
    spec fn after_setup(&self) -> Self;

    /// The filter after a ready one takes `sample`.
    spec fn after_step(&self, sample: int) -> Self;

    /// The filter is set up and may step.
    fn is_ready(&self) -> (r: bool)
        ensures
            r == self.base().phase.ready(),
    ;

    /// Derives the gains from the configuration and reseeds the state from the
    /// initial state; on an invalid configuration nothing changes.
    fn setup(&mut self) -> (r: Result<(), FilterError>)
        requires
            old(self).wf(),
        ensures
            final(self).wf(),
            old(self).config_valid() ==> r == Ok::<(), FilterError>(()) && *final(self)
                == old(self).after_setup() && final(self).base() == old(self).base().seeded(),
            !old(self).config_valid() ==> r == Err::<(), FilterError>(
                FilterError::InvalidConfiguration,
            ) && *final(self) == *old(self),
    ;

    /// Takes the next sample and returns the smoothed value; refuses to run
    /// unless the filter is set up.
    fn step(&mut self, sample: i64) -> (r: Result<i64, FilterError>)
        requires
            old(self).wf(),
        ensures
            final(self).wf(),
            old(self).base().phase.ready() ==> *final(self) == old(self).after_step(sample as int)
                && final(self).base().phase == Phase::Streaming && r == Ok::<i64, FilterError>(
                final(self).base().previous_value,
            ),
            !old(self).base().phase.ready() ==> r == Err::<i64, FilterError>(
                FilterError::FilterNotReady,
            ) && *final(self) == *old(self),
    ;

    /// Sets the sample rate in hertz.
    fn set_sample_rate(&mut self, rate: i32)
        requires
            old(self).wf(),
        ensures
            final(self).wf(),
            *final(self) == old(self).with_base(old(self).base().with_sample_rate(rate)),
    ;

    /// Sets the output before the first sample.
    fn set_initial_state(&mut self, state: i64)
        requires
            old(self).wf(),
        ensures
            final(self).wf(),
            *final(self) == old(self).with_base(old(self).base().with_initial_state(state)),
    ;

    /// Sets the time constant of the output, in nanoseconds.
    fn set_time_contant(&mut self, constant: i64)
        requires
            old(self).wf(),
        ensures
            final(self).wf(),
            *final(self) == old(self).with_base(old(self).base().with_time_constant(constant)),
    ;
}

/// A single-pole exponential smoother (an exponentially weighted moving
/// average).
#[derive(Debug, Clone, Copy)]
pub struct ExponentialSmoother {
    pub parent: Smoother,
    /// Gain toward each new sample, in parts of `GAIN_ONE`.
    pub alpha: u64,
}

impl SmootherMethods for ExponentialSmoother {
    open spec fn wf(&self) -> bool {
        self.parent.phase.ready() ==> self.parent.gain_valid() && self.alpha == self.parent.gain()
    }

    open spec fn base(&self) -> Smoother {
        self.parent
    }

    open spec fn with_base(&self, base: Smoother) -> Self {
        ExponentialSmoother { parent: base, ..*self }
    }

    open spec fn config_valid(&self) -> bool {
        self.parent.gain_valid()
    }

    open spec fn after_setup(&self) -> Self {
        ExponentialSmoother { parent: self.parent.seeded(), alpha: self.parent.gain() as u64 }
    }

    open spec fn after_step(&self, sample: int) -> Self {
        ExponentialSmoother {
            parent: self.parent.emitted(
                blend(self.parent.previous_value as int, sample, self.alpha as int),
            ),
            ..*self
        }
    }

    fn is_ready(&self) -> (r: bool) {
        self.parent.phase == Phase::Ready || self.parent.phase == Phase::Streaming
    }

    fn setup(&mut self) -> (r: Result<(), FilterError>) {
        match compute_gain(self.parent.time_constant, self.parent.sample_rate) {
            Ok(alpha) => {
                proof {
                    lemma_gain_bounds(
                        self.parent.time_constant as int,
                        self.parent.sample_rate as int,
                    );
                }
                self.alpha = alpha;
                self.parent.previous_value = self.parent.initial_state;
                self.parent.phase = Phase::Ready;
                Ok(())
            },
            Err(e) => Err(e),
        }
    }

    fn step(&mut self, sample: i64) -> (r: Result<i64, FilterError>) {
        if !self.is_ready() {
            return Err(FilterError::FilterNotReady);
        }
        proof {
            lemma_gain_bounds(self.parent.time_constant as int, self.parent.sample_rate as int);
        }
        let smoothed = blend_exec(self.parent.previous_value, sample, self.alpha);
        self.parent.previous_value = smoothed;
        self.parent.phase = Phase::Streaming;
        Ok(smoothed)
    }

    fn set_sample_rate(&mut self, rate: i32) {
        self.parent.sample_rate = rate;
        self.parent.phase = Phase::Configured;
    }

    fn set_initial_state(&mut self, state: i64) {
        self.parent.initial_state = state;
        self.parent.phase = Phase::Configured;
    }

    fn set_time_contant(&mut self, constant: i64) {
        self.parent.time_constant = constant;
        self.parent.phase = Phase::Configured;
    }
}

/// A new exponential smoother, not yet configured.
pub fn new_exponential_smoother() -> (r: ExponentialSmoother)
    ensures
        r.wf(),
        r.parent == Smoother::unconfigured(),
        r.alpha == 0,
{
    ExponentialSmoother { parent: Smoother::new(), alpha: 0 }
}

/// A constant-velocity tracker (an alpha-beta filter): each step predicts the
/// position from the velocity, then corrects position and velocity by the
/// residual of that prediction.
///
/// The velocity is kept in units per sample, that is the velocity per second
/// times the sample period; the prediction and the velocity saturate at the
/// bounds of `i64`.
#[derive(Debug, Clone, Copy)]
pub struct AlphaBetaSmoother {
    /// Shared state; `previous_value` is the position.
    pub parent: Smoother,
    /// Time constant of the velocity, in nanoseconds.
    pub time_constant_velocity: i64,
    /// Velocity, in units per sample.
    pub previous_velocity: i64,
    /// Position gain, in parts of `GAIN_ONE`.
    pub alpha: u64,
    /// Velocity gain, in parts of `GAIN_ONE`.
    pub beta: u64,
}

impl AlphaBetaSmoother {
    /// Whether the velocity gain can be derived from this configuration.
    pub open spec fn velocity_gain_valid(&self) -> bool {
        gain_valid(self.time_constant_velocity as int, self.parent.sample_rate as int)
    }

    /// The velocity gain this configuration gives.
    pub open spec fn velocity_gain(&self) -> int {
        gain_of(self.time_constant_velocity as int, self.parent.sample_rate as int)
    }
}

/// The tracker's one operation beyond those of every filter.
pub trait AlphaBetaSmootherMethods: SmootherMethods {
    /// The filter with the velocity time constant replaced, to be set up anew.
    spec fn with_time_constant_velocity(&self, constant: i64) -> Self;

    /// Sets the time constant of the velocity, in nanoseconds.
    fn set_time_contant_velocity(&mut self, constant: i64)
        requires
            old(self).wf(),
        ensures
            final(self).wf(),
            *final(self) == old(self).with_time_constant_velocity(constant),
            final(self).base().phase == Phase::Configured,
    ;
}

impl SmootherMethods for AlphaBetaSmoother {
    open spec fn wf(&self) -> bool {
        self.parent.phase.ready() ==> {
            &&& self.parent.gain_valid()
            &&& self.alpha == self.parent.gain()
            &&& self.velocity_gain_valid()
            &&& self.beta == self.velocity_gain()
        }
    }

    open spec fn base(&self) -> Smoother {
        self.parent
    }

    open spec fn with_base(&self, base: Smoother) -> Self {
        AlphaBetaSmoother { parent: base, ..*self }
    }

    open spec fn config_valid(&self) -> bool {
        self.parent.gain_valid() && self.velocity_gain_valid()
    }

    open spec fn after_setup(&self) -> Self {
        AlphaBetaSmoother {
            parent: self.parent.seeded(),
            previous_velocity: 0,
            alpha: self.parent.gain() as u64,
            beta: self.velocity_gain() as u64,
            ..*self
        }
    }

    open spec fn after_step(&self, sample: int) -> Self {
        let p = self.parent.previous_value as int;
        let w = self.previous_velocity as int;
        AlphaBetaSmoother {
            parent: self.parent.emitted(track_position(p, w, sample, self.alpha as int)),
            previous_velocity: track_velocity(p, w, sample, self.beta as int) as i64,
            ..*self
        }
    }

    fn is_ready(&self) -> (r: bool) {
        self.parent.phase == Phase::Ready || self.parent.phase == Phase::Streaming
    }

    fn setup(&mut self) -> (r: Result<(), FilterError>) {
        let alpha = match compute_gain(self.parent.time_constant, self.parent.sample_rate) {
            Ok(g) => g,
            Err(e) => {
                return Err(e);
            },
        };
        let beta = match compute_gain(self.time_constant_velocity, self.parent.sample_rate) {
            Ok(g) => g,
            Err(e) => {
                return Err(e);
            },
        };
        proof {
            lemma_gain_bounds(self.parent.time_constant as int, self.parent.sample_rate as int);
            lemma_gain_bounds(self.time_constant_velocity as int, self.parent.sample_rate as int);
        }
        self.alpha = alpha;
        self.beta = beta;
        self.parent.previous_value = self.parent.initial_state;
        self.previous_velocity = 0;
        self.parent.phase = Phase::Ready;
        Ok(())
    }

    fn step(&mut self, sample: i64) -> (r: Result<i64, FilterError>) {
        if !self.is_ready() {
            return Err(FilterError::FilterNotReady);
        }
        proof {
            lemma_gain_bounds(self.parent.time_constant as int, self.parent.sample_rate as int);
            lemma_gain_bounds(self.time_constant_velocity as int, self.parent.sample_rate as int);
        }
        let predicted = saturate_exec(
            self.parent.previous_value as i128 + self.previous_velocity as i128,
        );
        let residual: i128 = sample as i128 - predicted as i128;
        let position = blend_exec(predicted, sample, self.alpha);
        let correction = scale_toward_zero_exec(self.beta, residual);
        let velocity = saturate_exec(self.previous_velocity as i128 + correction);
        self.parent.previous_value = position;
        self.previous_velocity = velocity;
        self.parent.phase = Phase::Streaming;
        Ok(position)
    }

    fn set_sample_rate(&mut self, rate: i32) {
        self.parent.sample_rate = rate;
        self.parent.phase = Phase::Configured;
    }

    fn set_initial_state(&mut self, state: i64) {
        self.parent.initial_state = state;
        self.parent.phase = Phase::Configured;
    }

    fn set_time_contant(&mut self, constant: i64) {
        self.parent.time_constant = constant;
        self.parent.phase = Phase::Configured;
    }
}

impl AlphaBetaSmootherMethods for AlphaBetaSmoother {
    open spec fn with_time_constant_velocity(&self, constant: i64) -> Self {
        AlphaBetaSmoother {
            parent: Smoother { phase: Phase::Configured, ..self.parent },
            time_constant_velocity: constant,
            ..*self
        }
    }

    fn set_time_contant_velocity(&mut self, constant: i64) {
        self.time_constant_velocity = constant;
        self.parent.phase = Phase::Configured;
    }
}

/// One step of a set-up exponential smoother returns a value between its
/// previous output and the sample.
pub proof fn lemma_exponential_step_between(s: ExponentialSmoother, sample: i64)
    requires
        s.wf(),
        s.parent.phase.ready(),
    ensures
        vstd::math::min(s.parent.previous_value as int, sample as int)
            <= s.after_step(sample as int).parent.previous_value,
        s.after_step(sample as int).parent.previous_value <= vstd::math::max(
            s.parent.previous_value as int,
            sample as int,
        ),
{
    lemma_gain_bounds(s.parent.time_constant as int, s.parent.sample_rate as int);
    lemma_blend_between(s.parent.previous_value as int, sample as int, s.alpha as int);
}

/// Fed a constant `v`, a set-up exponential smoother moves its distance to `v`
/// down by the factor `1 - alpha` at every step.
pub proof fn lemma_exponential_converges(s: ExponentialSmoother, v: i64)
    requires
        s.wf(),
        s.parent.phase.ready(),
    ensures
        vstd::math::abs(s.after_step(v as int).parent.previous_value - v) * GAIN_ONE <= (GAIN_ONE
            - s.alpha) * vstd::math::abs(s.parent.previous_value - v),
        vstd::math::abs(s.after_step(v as int).parent.previous_value - v) == (GAIN_ONE - s.alpha)
            * vstd::math::abs(s.parent.previous_value - v) / GAIN_ONE as int,
        s.after_step(v as int).wf(),
        s.after_step(v as int).parent.phase.ready(),
        s.after_step(v as int).alpha == s.alpha,
{
    lemma_gain_bounds(s.parent.time_constant as int, s.parent.sample_rate as int);
    lemma_blend_between(s.parent.previous_value as int, v as int, s.alpha as int);
    lemma_blend_contracts(s.parent.previous_value as int, v as int, s.alpha as int);
}

/// With no velocity yet, a tracker's position follows exactly the exponential
/// smoother of the same position gain, and the velocity it picks up is at most
/// `beta` times the residual: with `beta` at zero it stays at rest, and the
/// tracker is the exponential smoother.
pub proof fn lemma_tracker_reduces_to_exponential(
    t: AlphaBetaSmoother,
    e: ExponentialSmoother,
    sample: i64,
)
    requires
        t.previous_velocity == 0,
        t.parent.previous_value == e.parent.previous_value,
        t.alpha == e.alpha,
        t.beta <= GAIN_ONE,
    ensures
        t.after_step(sample as int).parent.previous_value == e.after_step(
            sample as int,
        ).parent.previous_value,
        vstd::math::abs(t.after_step(sample as int).previous_velocity as int) * GAIN_ONE <= t.beta
            * vstd::math::abs(sample - t.parent.previous_value),
        t.beta == 0 ==> t.after_step(sample as int).previous_velocity == 0,
{
    let p = t.parent.previous_value as int;
    let r = sample - p;
    let k = t.beta as int;
    assert(predict(p, 0) == p);
    lemma_scale_bounds(k, r);
    let m = vstd::math::abs(r);
    assert((k * m / GAIN_ONE as int) * GAIN_ONE <= k * m) by (nonlinear_arith)
        requires
            0 <= k,
            0 <= m,
    ;
    assert(k == 0 ==> k * m == 0) by (nonlinear_arith);
}

/// A new alpha-beta tracker, not yet configured.
pub fn new_alpha_beta_smoother() -> (r: AlphaBetaSmoother)
    ensures
        r.wf(),
        r.parent == Smoother::unconfigured(),
        r.time_constant_velocity == 0,
        r.previous_velocity == 0,
        r.alpha == 0,
        r.beta == 0,
{
    AlphaBetaSmoother {
        parent: Smoother::new(),
        time_constant_velocity: 0,
        previous_velocity: 0,
        alpha: 0,
        beta: 0,
    }
}

} // verus!
