use temper::measurement::{
    bootstrap_interval, confirmation, median_u64, relative_mad, screening, ConfirmationNumbers,
    ConfirmationResult, MeasurementError, MeasurementOutcome, SplitMix64, BOOTSTRAP_SEED,
    CONFIRMATION_PAIR_COUNT, DISPERSION_LIMIT,
};

/// The bits of the relative deviation of samples; zero where it is not defined.
fn relative_bits(samples: &[u64]) -> u64 {
    match relative_mad(&samples.to_vec()) {
        Ok(spread) => ((spread.deviation as f64) / (spread.median as f64)).to_bits(),
        Err(_) => 0,
    }
}

/// What the double arithmetic on paired samples gives.
fn numbers(baseline: &[u64], candidate: &[u64], improvement: f64) -> ConfirmationNumbers {
    let ratios: Vec<f64> = baseline
        .iter()
        .zip(candidate)
        .map(|(baseline, candidate)| (*candidate as f64) / (*baseline as f64))
        .collect();
    let mut midpoints = Vec::new();
    for first in &ratios {
        for second in &ratios {
            midpoints.push(((first + second) / 2.0).to_bits());
        }
    }
    ConfirmationNumbers {
        threshold_valid: improvement.is_finite() && (0.0..100.0).contains(&improvement),
        threshold: (1.0 - (improvement / 100.0)).to_bits(),
        ratios: ratios.iter().map(|ratio| ratio.to_bits()).collect(),
        midpoints,
        baseline_relative_mad: relative_bits(baseline),
        candidate_relative_mad: relative_bits(candidate),
    }
}

fn confirm(
    baseline: &[u64],
    candidate: &[u64],
    improvement: f64,
) -> Result<ConfirmationResult, MeasurementError> {
    confirmation(
        &baseline.to_vec(),
        &candidate.to_vec(),
        &numbers(baseline, candidate, improvement),
        BOOTSTRAP_SEED,
    )
}

fn cohort(
    base: u64,
    candidate_percent: u64,
    candidate_jitter_offset: usize,
) -> ([u64; 20], [u64; 20]) {
    let mut baseline = [0_u64; CONFIRMATION_PAIR_COUNT];
    let mut candidate = [0_u64; CONFIRMATION_PAIR_COUNT];
    let jitter_percent = [99_u64, 100, 101, 100, 99, 101, 100, 100, 101, 99];
    for index in 0..CONFIRMATION_PAIR_COUNT {
        baseline[index] = base * jitter_percent[index % jitter_percent.len()] / 100;
        let candidate_jitter =
            jitter_percent[(index + candidate_jitter_offset) % jitter_percent.len()];
        candidate[index] = base * candidate_jitter / 100 * candidate_percent / 100;
    }
    (baseline, candidate)
}

fn accepted(datasets: u64, candidate_percent: u64) -> usize {
    (0..datasets)
        .filter(|dataset| {
            let offset = (*dataset as usize % 9) + 1;
            let (baseline, candidate) =
                cohort(1_000_000 + dataset * 10_000, candidate_percent, offset);
            confirm(&baseline, &candidate, 2.0)
                .is_ok_and(|result| result.outcome == MeasurementOutcome::Accepted)
        })
        .count()
}

#[test]
fn deterministic_validation_cohorts_hold_the_protocol_bounds() {
    let false_promotions = accepted(100, 100);
    assert_eq!(false_promotions, 0, "the pre-tag A/A control requires zero promotions");

    let accepted_regressions = accepted(20, 105);
    assert_eq!(accepted_regressions, 0);

    let accepted_improvements = accepted(20, 95);
    assert!(accepted_improvements >= 18);
}

#[test]
fn deterministic_sample_fixture_accepts_a_confirmed_improvement() {
    let baseline = [1_000_000; CONFIRMATION_PAIR_COUNT];
    let candidate = [950_000; CONFIRMATION_PAIR_COUNT];

    let result = confirm(&baseline, &candidate, 2.0).expect("deterministic confirmation");

    assert_eq!(result.outcome, MeasurementOutcome::Accepted);
    assert!(
        f64::from_bits(result.confidence_interval_95.upper)
            <= f64::from_bits(result.threshold_ratio)
    );
    assert_eq!(result.baseline_durations_ns, baseline);
    assert_eq!(result.candidate_durations_ns, candidate);
}

#[test]
fn unstable_measurements_override_a_faster_median() {
    let baseline = [1_000_000; CONFIRMATION_PAIR_COUNT];
    let mut candidate = [500_000; CONFIRMATION_PAIR_COUNT];
    for value in candidate.iter_mut().skip(CONFIRMATION_PAIR_COUNT / 2) {
        *value = 1_100_000;
    }
    let result = confirm(&baseline, &candidate, 2.0).expect("valid samples");
    assert!(f64::from_bits(result.median_ratio) < 1.0);
    assert_eq!(result.outcome, MeasurementOutcome::UnstableMeasurement);
}

#[test]
fn invalid_measurements_return_typed_errors() {
    let screen = |samples: &[u64]| screening(&samples.to_vec(), relative_bits(samples));
    assert!(matches!(screen(&[]), Err(MeasurementError::EmptySamples)));
    assert!(matches!(
        screen(&[1, 2]),
        Err(MeasurementError::WrongSampleCount { expected: 7, actual: 2 })
    ));
    assert!(matches!(screen(&[1, 1, 1, 0, 1, 1, 1]), Err(MeasurementError::ZeroDuration)));
    let maximums = [u64::MAX; CONFIRMATION_PAIR_COUNT];
    assert!(matches!(
        confirm(&maximums, &maximums, 2.0),
        Err(MeasurementError::ArithmeticOverflow)
    ));
}

#[test]
fn paired_samples_are_checked_in_order() {
    let pairs = [5_u64; CONFIRMATION_PAIR_COUNT];
    assert!(matches!(confirm(&[], &pairs, 2.0), Err(MeasurementError::EmptySamples)));
    assert!(matches!(
        confirm(&pairs[..3], &pairs, 2.0),
        Err(MeasurementError::UnequalPairCount { baseline: 3, candidate: 20 })
    ));
    assert!(matches!(
        confirm(&pairs[..3], &pairs[..3], 2.0),
        Err(MeasurementError::WrongSampleCount { expected: 20, actual: 3 })
    ));
    assert!(matches!(confirm(&pairs, &pairs, 100.0), Err(MeasurementError::InvalidThreshold)));
    assert!(matches!(confirm(&pairs, &pairs, f64::NAN), Err(MeasurementError::InvalidThreshold)));
    let mut zero = pairs;
    zero[4] = 0;
    assert!(matches!(confirm(&pairs, &zero, 2.0), Err(MeasurementError::ZeroDuration)));
    let mut infinite = numbers(&pairs, &pairs, 2.0);
    infinite.ratios[0] = f64::INFINITY.to_bits();
    assert!(matches!(
        confirmation(&pairs.to_vec(), &pairs.to_vec(), &infinite, BOOTSTRAP_SEED),
        Err(MeasurementError::NonFiniteValue)
    ));
}

#[test]
fn medians_do_not_depend_on_the_order_of_samples() {
    assert_eq!(median_u64(&vec![5, 1, 3]), Ok(3));
    assert_eq!(median_u64(&vec![3, 5, 1]), Ok(3));
    assert_eq!(median_u64(&vec![4, 1, 3, 2]), Ok(2));
    assert_eq!(median_u64(&vec![]), Err(MeasurementError::EmptySamples));
    let spread = relative_mad(&vec![10, 12, 14, 100, 11]).expect("spread");
    assert_eq!((spread.median, spread.deviation), (12, 2));
}

#[test]
fn screenings_are_stable_up_to_the_dispersion_limit() {
    assert_eq!(DISPERSION_LIMIT, 0.10_f64.to_bits());
    let steady = vec![100_u64, 101, 99, 100, 100, 102, 98];
    let result = screening(&steady, relative_bits(&steady)).expect("screening");
    assert_eq!(result.outcome, MeasurementOutcome::Stable);
    assert_eq!(result.median_duration_ns, 100);
    let wild = vec![100_u64, 200, 10, 150, 60, 100, 300];
    let result = screening(&wild, relative_bits(&wild)).expect("screening");
    assert_eq!(result.outcome, MeasurementOutcome::UnstableMeasurement);
}

#[test]
fn the_bootstrap_interval_is_ordered_and_reproducible() {
    let (baseline, candidate) = cohort(1_000_000, 97, 3);
    let numbers = numbers(&baseline, &candidate, 2.0);
    let first = bootstrap_interval(&numbers, BOOTSTRAP_SEED).expect("interval");
    let second = bootstrap_interval(&numbers, BOOTSTRAP_SEED).expect("interval");
    assert_eq!(first, second);
    assert!(f64::from_bits(first.lower) <= f64::from_bits(first.upper));
}

#[test]
fn the_generator_is_the_published_one() {
    let mut generator = SplitMix64::new(BOOTSTRAP_SEED);
    assert_eq!(generator.next_u64(), 0x38e3_8f1f_d2ae_2c49);
    assert_eq!(generator.next_u64(), 0xffd0_1fb2_642e_cb42);
}

#[test]
fn measurement_errors_have_their_messages() {
    assert_eq!(MeasurementError::EmptySamples.message(), "measurement samples cannot be empty");
    assert_eq!(
        MeasurementError::WrongSampleCount { expected: 7, actual: 2 }.message(),
        "expected 7 samples, received 2"
    );
    assert_eq!(
        MeasurementError::UnequalPairCount { baseline: 3, candidate: 20 }.message(),
        "paired sample counts differ: baseline=3, candidate=20"
    );
    assert_eq!(
        MeasurementError::InvalidThreshold.message(),
        "minimum improvement must be finite and between 0 and 100 percent"
    );
}

#[test]
fn looser_thresholds_accept_what_stricter_ones_accept() {
    let (baseline, candidate) = cohort(1_000_000, 95, 3);
    let strict = confirm(&baseline, &candidate, 3.0).expect("strict confirmation");
    let loose = confirm(&baseline, &candidate, 1.0).expect("loose confirmation");
    let severe = confirm(&baseline, &candidate, 50.0).expect("severe confirmation");
    assert_eq!(strict.outcome, MeasurementOutcome::Accepted);
    assert_eq!(loose.outcome, MeasurementOutcome::Accepted);
    assert_eq!(severe.outcome, MeasurementOutcome::InsufficientImprovement);
    for other in [&loose, &severe] {
        assert_eq!(other.median_ratio, strict.median_ratio);
        assert_eq!(other.baseline_relative_mad, strict.baseline_relative_mad);
        assert_eq!(other.candidate_relative_mad, strict.candidate_relative_mad);
        assert_eq!(other.confidence_interval_95, strict.confidence_interval_95);
    }
}

#[test]
fn intervals_lie_among_the_ratios() {
    let (baseline, candidate) = cohort(1_000_000, 97, 4);
    let given = numbers(&baseline, &candidate, 2.0);
    let least = *given.ratios.iter().min().expect("ratios");
    let greatest = *given.ratios.iter().max().expect("ratios");
    let found = confirm(&baseline, &candidate, 2.0).expect("confirmation");
    assert!(least < greatest);
    assert!(least <= found.median_ratio && found.median_ratio <= greatest);
    assert!(least <= found.confidence_interval_95.lower);
    assert!(found.confidence_interval_95.lower <= found.confidence_interval_95.upper);
    assert!(found.confidence_interval_95.upper <= greatest);
    assert!(f64::from_bits(found.confidence_interval_95.upper).is_finite());
}
