use exponential_smoothing::error::FilterError;
use exponential_smoothing::gain::{compute_gain, GAIN_ONE};
use exponential_smoothing::signal::{smooth_alpha_beta, smooth_exponential, smooth_signal};
use exponential_smoothing::smoothing::{
    new_alpha_beta_smoother, new_exponential_smoother, AlphaBetaSmoother,
    AlphaBetaSmootherMethods, ExponentialSmoother, Phase, SmootherMethods,
};

const ONE: i64 = 1_000_000;
const TEN_MS: i64 = 10_000_000;
const TEN_US: i64 = 10_000;

fn exponential(rate: i32, tc: i64, initial: i64) -> ExponentialSmoother {
    let mut s = new_exponential_smoother();
    s.set_sample_rate(rate);
    s.set_time_contant(tc);
    s.set_initial_state(initial);
    s.setup().unwrap();
    s
}

fn tracker(rate: i32, tc: i64, tcv: i64, initial: i64) -> AlphaBetaSmoother {
    let mut s = new_alpha_beta_smoother();
    s.set_sample_rate(rate);
    s.set_time_contant(tc);
    s.set_time_contant_velocity(tcv);
    s.set_initial_state(initial);
    s.setup().unwrap();
    s
}

fn close(actual: i64, expected: f64, tolerance: i64) -> bool {
    (actual - (expected * ONE as f64).round() as i64).abs() <= tolerance
}

#[test]
fn gain_of_ten_milliseconds_at_one_kilohertz() {
    let g = compute_gain(TEN_MS, 1000).unwrap();
    assert_eq!(g, 95_162_582);
    let exact = 1.0 - (-0.1f64).exp();
    assert!(((g as f64) / (GAIN_ONE as f64) - exact).abs() < 1e-8);
}

#[test]
fn gain_is_strictly_inside_unit_interval_for_ordinary_inputs() {
    for &(tc, rate) in &[(TEN_MS, 1000), (1_000_000_000, 100), (20_000_000, 1000), (5_000, 48_000)] {
        let g = compute_gain(tc, rate).unwrap();
        assert!(g > 0 && g < GAIN_ONE, "gain {} for {} ns at {} Hz", g, tc, rate);
    }
}

#[test]
fn gain_decreases_as_time_constant_grows() {
    let mut last = GAIN_ONE + 1;
    for tc in [100_000i64, 1_000_000, TEN_MS, 20_000_000, 100_000_000, 1_000_000_000] {
        let g = compute_gain(tc, 1000).unwrap();
        assert!(g < last);
        last = g;
    }
    assert_eq!(compute_gain(20_000_000, 1000), Ok(48_770_576));
}

#[test]
fn gain_is_one_for_vanishing_time_constant() {
    assert_eq!(compute_gain(TEN_US, 1000), Ok(GAIN_ONE));
    assert_eq!(compute_gain(1, 1), Ok(GAIN_ONE));
    assert_eq!(compute_gain(15_625_000, 1), Ok(GAIN_ONE));
}

#[test]
fn gain_refuses_non_positive_inputs() {
    assert_eq!(compute_gain(0, 1000), Err(FilterError::InvalidConfiguration));
    assert_eq!(compute_gain(-5, 1000), Err(FilterError::InvalidConfiguration));
    assert_eq!(compute_gain(TEN_MS, 0), Err(FilterError::InvalidConfiguration));
    assert_eq!(compute_gain(TEN_MS, -1000), Err(FilterError::InvalidConfiguration));
}

#[test]
fn gain_refuses_a_time_constant_whose_gain_vanishes() {
    assert_eq!(
        compute_gain(1_000_000_000_000_000, 1_000_000_000),
        Err(FilterError::InvalidConfiguration)
    );
}

#[test]
fn exponential_scenario_constant_one() {
    let mut s = exponential(1000, TEN_MS, 0);
    let out: Vec<i64> = (0..3).map(|_| s.step(ONE).unwrap()).collect();
    assert_eq!(out, vec![95_163, 181_270, 259_183]);
    assert!(close(out[0], 0.095163, 1));
    assert!(close(out[1], 0.181269, 1));
    assert!(close(out[2], 0.259183, 1));
}

#[test]
fn exponential_output_lies_between_previous_and_sample() {
    let mut s = exponential(1000, TEN_MS, 0);
    let samples = [ONE, -3 * ONE, 7, 7, -1, 5 * ONE, i64::MAX / 2, i64::MIN / 2];
    let mut previous = 0i64;
    for &x in &samples {
        let y = s.step(x).unwrap();
        assert!(y >= previous.min(x) && y <= previous.max(x));
        previous = y;
    }
}

#[test]
fn exponential_converges_geometrically_to_constant_input() {
    let mut s = exponential(1000, TEN_MS, 0);
    let v = 2 * ONE;
    let k = (GAIN_ONE - s.alpha) as i128;
    let mut distance = v as i128;
    for _ in 0..50 {
        let y = s.step(v).unwrap();
        let next = (y as i128 - v as i128).abs();
        assert!(next * GAIN_ONE as i128 <= k * distance);
        assert_eq!(next, k * distance / GAIN_ONE as i128);
        distance = next;
    }
}

#[test]
fn alpha_beta_scenario_constant_one() {
    let mut s = tracker(1000, TEN_MS, TEN_US, 0);
    assert_eq!(s.alpha, 95_162_582);
    assert_eq!(s.beta, GAIN_ONE);
    let first = s.step(ONE).unwrap();
    assert_eq!(first, 95_163);
    // one unit per sample at 1000 samples per second: 1000 units per second
    assert_eq!(s.previous_velocity as i128 * 1000, 1000 * ONE as i128);
    let predicted = s.parent.previous_value + s.previous_velocity;
    assert!(predicted > ONE);
    let mut last = first;
    for _ in 0..400 {
        last = s.step(ONE).unwrap();
    }
    assert!((last - ONE).abs() <= 10);
    assert!(s.previous_velocity.abs() <= 10);
}

#[test]
fn alpha_beta_with_tiny_velocity_gain_matches_exponential() {
    let mut t = tracker(1000, TEN_MS, 10_000_000_000_000, 0);
    let mut e = exponential(1000, TEN_MS, 0);
    assert!(t.beta > 0 && t.beta < 1000);
    let samples = [0, ONE, ONE, ONE, -ONE, 3 * ONE, 2 * ONE, ONE];
    for &x in &samples {
        assert_eq!(t.step(x).unwrap(), e.step(x).unwrap());
    }
}

#[test]
fn setup_with_zero_time_constant_fails() {
    let mut s = new_exponential_smoother();
    s.set_sample_rate(1000);
    s.set_time_contant(0);
    assert_eq!(s.setup(), Err(FilterError::InvalidConfiguration));
    assert_eq!(s.step(ONE), Err(FilterError::FilterNotReady));

    let mut t = new_alpha_beta_smoother();
    t.set_sample_rate(1000);
    t.set_time_contant(TEN_MS);
    t.set_time_contant_velocity(0);
    assert_eq!(t.setup(), Err(FilterError::InvalidConfiguration));
}

#[test]
fn setup_with_zero_sample_rate_fails() {
    let mut s = new_exponential_smoother();
    s.set_time_contant(TEN_MS);
    assert_eq!(s.setup(), Err(FilterError::InvalidConfiguration));
}

#[test]
fn step_before_setup_fails() {
    let mut s = new_exponential_smoother();
    assert_eq!(s.step(ONE), Err(FilterError::FilterNotReady));
    s.set_sample_rate(1000);
    s.set_time_contant(TEN_MS);
    assert_eq!(s.step(ONE), Err(FilterError::FilterNotReady));
    let mut t = new_alpha_beta_smoother();
    assert_eq!(t.step(ONE), Err(FilterError::FilterNotReady));
}

#[test]
fn step_after_configuration_change_fails_until_setup() {
    let mut s = exponential(1000, TEN_MS, 0);
    assert!(s.step(ONE).is_ok());
    s.set_time_contant(20_000_000);
    assert_eq!(s.parent.phase, Phase::Configured);
    assert_eq!(s.step(ONE), Err(FilterError::FilterNotReady));
    s.setup().unwrap();
    assert_eq!(s.step(ONE), Ok(48_771));
}

#[test]
fn setup_again_resets_state() {
    let mut t = tracker(1000, TEN_MS, TEN_US, 5);
    assert_eq!(t.parent.previous_value, 5);
    assert_eq!(t.parent.phase, Phase::Ready);
    t.step(ONE).unwrap();
    t.step(ONE).unwrap();
    assert_eq!(t.parent.phase, Phase::Streaming);
    t.setup().unwrap();
    assert_eq!(t.parent.previous_value, 5);
    assert_eq!(t.previous_velocity, 0);
    assert_eq!(t.parent.phase, Phase::Ready);
}

#[test]
fn smooth_signal_keeps_count_and_order() {
    let signal: Vec<i64> = vec![ONE, 2 * ONE, -ONE, 0, 4 * ONE];
    let mut s = exponential(1000, TEN_MS, 0);
    let mut reference = s;
    let expected: Vec<i64> = signal.iter().map(|&x| reference.step(x).unwrap()).collect();
    let out = smooth_signal(&signal, &mut s).unwrap();
    assert_eq!(out.len(), signal.len());
    assert_eq!(out, expected);
    assert_eq!(smooth_signal(&Vec::new(), &mut s), Ok(Vec::new()));
}

#[test]
fn smooth_signal_refuses_filter_not_set_up() {
    let mut s = new_alpha_beta_smoother();
    assert_eq!(smooth_signal(&vec![1, 2, 3], &mut s), Err(FilterError::FilterNotReady));
}

#[test]
fn smooth_exponential_starts_from_first_sample() {
    let out = smooth_exponential(&vec![ONE, ONE, 0], 1000, TEN_MS).unwrap();
    assert_eq!(out, vec![ONE, ONE, ONE - 95_163]);
    assert_eq!(
        smooth_exponential(&vec![ONE], 1000, 0),
        Err(FilterError::InvalidConfiguration)
    );
}

#[test]
fn smooth_alpha_beta_starts_from_first_sample_at_rest() {
    let out = smooth_alpha_beta(&vec![ONE, ONE, 2 * ONE], 1000, TEN_MS, TEN_US).unwrap();
    assert_eq!(out.len(), 3);
    assert_eq!(out[0], ONE);
    assert_eq!(out[1], ONE);
    assert_eq!(out[2], ONE + 95_163);
    assert_eq!(
        smooth_alpha_beta(&vec![ONE], 1000, TEN_MS, -1),
        Err(FilterError::InvalidConfiguration)
    );
}
