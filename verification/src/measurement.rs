//! Screening and paired confirmation of measured durations.
//!
//! Ratios are doubles. This module never computes with them: it takes each non-negative double
//! as its bit pattern, which orders exactly like the number, and decides by comparing patterns.

use vstd::prelude::*;
use vstd::string::*;

use crate::order::{
    count_at_least, count_at_most, increasing, lemma_increasing, lemma_increasing_ignores_order,
    lemma_order_statistic, lemma_order_statistic_is_unique, lemma_sorted_lists_agree, sort_numbers,
};
use crate::text::{decimal, decimal_text, text4};

verus! {

pub const WARMUP_COUNT: usize = 2;

pub const SCREENING_SAMPLE_COUNT: usize = 7;

pub const CONFIRMATION_PAIR_COUNT: usize = 20;

pub const BOOTSTRAP_RESAMPLES: usize = 10_000;

pub const BOOTSTRAP_SEED: u64 = 0x5445_4d50_4552_0001;

/// The bit pattern of the dispersion limit, one tenth.
pub const DISPERSION_LIMIT: u64 = 0x3fb9_9999_9999_999a;

/// The bit pattern of infinity: every finite non-negative double lies below it.
pub const INFINITE: u64 = 0x7ff0_0000_0000_0000;

/// The place of the lower bound of the interval among the sorted estimates.
pub const LOWER_PLACE: usize = 249;

/// The place of the upper bound of the interval among the sorted estimates.
pub const UPPER_PLACE: usize = 9_750;

#[derive(Clone, Copy, Debug, PartialEq, Eq, Structural)]
pub enum MeasurementOutcome {
    Stable,
    Accepted,
    InsufficientImprovement,
    UnstableMeasurement,
}

#[derive(Clone, Copy, Debug, PartialEq, Eq, Structural)]
pub enum MeasurementError {
    EmptySamples,
    WrongSampleCount { expected: usize, actual: usize },
    UnequalPairCount { baseline: usize, candidate: usize },
    ZeroDuration,
    ArithmeticOverflow,
    NonFiniteValue,
    InvalidThreshold,
}

/// The message of a measurement error.
pub open spec fn error_message(error: MeasurementError) -> Seq<char> {
    match error {
        MeasurementError::EmptySamples => "measurement samples cannot be empty"@,
        MeasurementError::WrongSampleCount { expected, actual } => "expected "@ + decimal_text(
            expected as nat,
        ) + " samples, received "@ + decimal_text(actual as nat),
        MeasurementError::UnequalPairCount { baseline, candidate } =>
            "paired sample counts differ: baseline="@ + decimal_text(baseline as nat)
            + ", candidate="@ + decimal_text(candidate as nat),
        MeasurementError::ZeroDuration => "measurement durations must be nonzero"@,
        MeasurementError::ArithmeticOverflow => "measurement arithmetic overflowed"@,
        MeasurementError::NonFiniteValue => "measurement produced a non-finite value"@,
        MeasurementError::InvalidThreshold =>
            "minimum improvement must be finite and between 0 and 100 percent"@,
    }
}

impl MeasurementError {
    /// The message of the error.
    pub fn message(&self) -> (message: String)
        ensures
            message@ == error_message(*self),
    {
        match self {
            MeasurementError::EmptySamples => "measurement samples cannot be empty".to_owned(),
            MeasurementError::WrongSampleCount { expected, actual } => {
                let wanted = decimal(*expected as u64);
                let received = decimal(*actual as u64);
                text4("expected ", wanted.as_str(), " samples, received ", received.as_str())
            },
            MeasurementError::UnequalPairCount { baseline, candidate } => {
                let first = decimal(*baseline as u64);
                let second = decimal(*candidate as u64);
                text4(
                    "paired sample counts differ: baseline=",
                    first.as_str(),
                    ", candidate=",
                    second.as_str(),
                )
            },
            MeasurementError::ZeroDuration => "measurement durations must be nonzero".to_owned(),
            MeasurementError::ArithmeticOverflow => "measurement arithmetic overflowed".to_owned(),
            MeasurementError::NonFiniteValue =>
                "measurement produced a non-finite value".to_owned(),
            MeasurementError::InvalidThreshold =>
                "minimum improvement must be finite and between 0 and 100 percent".to_owned(),
        }
    }
}

/// Whether a bit pattern is that of a finite non-negative double.
pub open spec fn is_finite_bits(bits: u64) -> bool {
    bits < INFINITE
}

/// Whether every duration is nonzero.
pub open spec fn nonzero(samples: Seq<u64>) -> bool {
    forall|i: int| 0 <= i < samples.len() ==> #[trigger] samples[i] != 0
}

/// The median of samples; an even count averages the two middle samples, rounding down.
pub open spec fn median_of(samples: Seq<u64>) -> Result<u64, MeasurementError> {
    let sorted = increasing(samples);
    let middle = (samples.len() / 2) as int;
    if samples.len() == 0 {
        Err(MeasurementError::EmptySamples)
    } else if samples.len() % 2 == 1 {
        Ok(sorted[middle])
    } else if sorted[middle - 1] + sorted[middle] > u64::MAX {
        Err(MeasurementError::ArithmeticOverflow)
    } else {
        Ok(((sorted[middle - 1] + sorted[middle]) / 2) as u64)
    }
}

/// The distance of two numbers.
pub open spec fn distance(left: u64, right: u64) -> u64 {
    if left >= right {
        (left - right) as u64
    } else {
        (right - left) as u64
    }
}

/// The distances of samples from a median.
pub open spec fn deviations_of(samples: Seq<u64>, median: u64) -> Seq<u64> {
    samples.map_values(|sample: u64| distance(sample, median))
}

/// The median of samples and their median absolute deviation.
#[derive(Clone, Copy, Debug, PartialEq, Eq, Structural)]
pub struct Spread {
    pub median: u64,
    pub deviation: u64,
}

/// The median of samples and their median absolute deviation, or why there is none.
pub open spec fn spread_of(samples: Seq<u64>) -> Result<Spread, MeasurementError> {
    match median_of(samples) {
        Err(error) => Err(error),
        Ok(median) => if median == 0 {
            Err(MeasurementError::ZeroDuration)
        } else {
            match median_of(deviations_of(samples, median)) {
                Err(error) => Err(error),
                Ok(deviation) => Ok(Spread { median, deviation }),
            }
        },
    }
}

/// Checks that no duration is zero.
pub fn validate_durations(samples: &Vec<u64>) -> (checked: Result<(), MeasurementError>)
    ensures
        checked == if nonzero(samples@) {
            Ok::<(), MeasurementError>(())
        } else {
            Err::<(), MeasurementError>(MeasurementError::ZeroDuration)
        },
{
    let mut index: usize = 0;
    while index < samples.len()
        invariant
            index <= samples@.len(),
            forall|i: int| 0 <= i < index ==> #[trigger] samples@[i] != 0,
        decreases samples@.len() - index,
    {
        if samples[index] == 0 {
            return Err(MeasurementError::ZeroDuration);
        }
        index = index + 1;
    }
    Ok(())
}

/// The median of samples.
pub fn median_u64(samples: &Vec<u64>) -> (median: Result<u64, MeasurementError>)
    ensures
        median == median_of(samples@),
{
    if samples.len() == 0 {
        return Err(MeasurementError::EmptySamples);
    }
    let sorted = sort_numbers(samples);
    proof {
        lemma_increasing(samples@);
    }
    let middle: usize = sorted.len() / 2;
    if sorted.len() % 2 == 1 {
        Ok(sorted[middle])
    } else {
        match sorted[middle - 1].checked_add(sorted[middle]) {
            Some(sum) => Ok(sum / 2),
            None => Err(MeasurementError::ArithmeticOverflow),
        }
    }
}

/// The median of samples and their median absolute deviation.
pub fn relative_mad(samples: &Vec<u64>) -> (spread: Result<Spread, MeasurementError>)
    ensures
        spread == spread_of(samples@),
{
    let median: u64 = match median_u64(samples) {
        Ok(median) => median,
        Err(error) => return Err(error),
    };
    if median == 0 {
        return Err(MeasurementError::ZeroDuration);
    }
    let mut deviations: Vec<u64> = Vec::new();
    let mut index: usize = 0;
    while index < samples.len()
        invariant
            index <= samples@.len(),
            deviations@.len() == index,
            forall|i: int|
                0 <= i < index ==> #[trigger] deviations@[i] == distance(samples@[i], median),
        decreases samples@.len() - index,
    {
        let sample: u64 = samples[index];
        let deviation: u64 = if sample >= median {
            sample - median
        } else {
            median - sample
        };
        deviations.push(deviation);
        index = index + 1;
    }
    assert(deviations@ =~= deviations_of(samples@, median));
    match median_u64(&deviations) {
        Ok(deviation) => Ok(Spread { median, deviation }),
        Err(error) => Err(error),
    }
}

/// A screening: its samples, their median, the bits of their relative deviation, the outcome.
#[derive(Debug)]
pub struct ScreeningResult {
    pub sample_durations_ns: Vec<u64>,
    pub median_duration_ns: u64,
    pub relative_mad: u64,
    pub outcome: MeasurementOutcome,
}

/// A screening, as sequences.
pub struct ScreeningView {
    pub sample_durations_ns: Seq<u64>,
    pub median_duration_ns: u64,
    pub relative_mad: u64,
    pub outcome: MeasurementOutcome,
}

impl View for ScreeningResult {
    type V = ScreeningView;

    open spec fn view(&self) -> ScreeningView {
        ScreeningView {
            sample_durations_ns: self.sample_durations_ns@,
            median_duration_ns: self.median_duration_ns,
            relative_mad: self.relative_mad,
            outcome: self.outcome,
        }
    }
}

impl Clone for ScreeningResult {
    fn clone(&self) -> (copy: ScreeningResult)
        ensures
            copy@ == self@,
    {
        ScreeningResult {
            sample_durations_ns: self.sample_durations_ns.clone(),
            median_duration_ns: self.median_duration_ns,
            relative_mad: self.relative_mad,
            outcome: self.outcome,
        }
    }
}

/// The outcome of a screening with this relative deviation.
pub open spec fn screening_outcome(relative_mad: u64) -> MeasurementOutcome {
    if relative_mad > DISPERSION_LIMIT {
        MeasurementOutcome::UnstableMeasurement
    } else {
        MeasurementOutcome::Stable
    }
}

/// The screening of samples whose relative deviation has the given bits.
pub open spec fn screened(samples: Seq<u64>, relative_mad: u64) -> Result<
    ScreeningView,
    MeasurementError,
> {
    if samples.len() == 0 {
        Err(MeasurementError::EmptySamples)
    } else if samples.len() != SCREENING_SAMPLE_COUNT {
        Err(
            MeasurementError::WrongSampleCount {
                expected: SCREENING_SAMPLE_COUNT,
                actual: samples.len() as usize,
            },
        )
    } else if !nonzero(samples) {
        Err(MeasurementError::ZeroDuration)
    } else {
        match spread_of(samples) {
            Err(error) => Err(error),
            Ok(spread) => if is_finite_bits(relative_mad) {
                Ok(
                    ScreeningView {
                        sample_durations_ns: samples,
                        median_duration_ns: spread.median,
                        relative_mad,
                        outcome: screening_outcome(relative_mad),
                    },
                )
            } else {
                Err(MeasurementError::NonFiniteValue)
            },
        }
    }
}

/// Screens samples. `relative_mad` holds the bits of their median absolute deviation divided by
/// their median, as doubles.
pub fn screening(samples: &Vec<u64>, relative_mad_bits: u64) -> (result: Result<
    ScreeningResult,
    MeasurementError,
>)
    ensures
        match result {
            Ok(found) => screened(samples@, relative_mad_bits) == Ok::<
                ScreeningView,
                MeasurementError,
            >(found@),
            Err(error) => screened(samples@, relative_mad_bits) == Err::<
                ScreeningView,
                MeasurementError,
            >(error),
        },
{
    if samples.len() == 0 {
        return Err(MeasurementError::EmptySamples);
    }
    if samples.len() != SCREENING_SAMPLE_COUNT {
        return Err(
            MeasurementError::WrongSampleCount {
                expected: SCREENING_SAMPLE_COUNT,
                actual: samples.len(),
            },
        );
    }
    if let Err(error) = validate_durations(samples) {
        return Err(error);
    }
    let spread = match relative_mad(samples) {
        Ok(spread) => spread,
        Err(error) => return Err(error),
    };
    if relative_mad_bits >= INFINITE {
        return Err(MeasurementError::NonFiniteValue);
    }
    let outcome: MeasurementOutcome = if relative_mad_bits > DISPERSION_LIMIT {
        MeasurementOutcome::UnstableMeasurement
    } else {
        MeasurementOutcome::Stable
    };
    Ok(
        ScreeningResult {
            sample_durations_ns: samples.clone(),
            median_duration_ns: spread.median,
            relative_mad: relative_mad_bits,
            outcome,
        },
    )
}

/// What the double arithmetic around one confirmation gave, as bit patterns.
#[derive(Debug)]
pub struct ConfirmationNumbers {
    /// Whether the minimum improvement is finite and in the half-open range from 0 to 100.
    pub threshold_valid: bool,
    /// One minus a hundredth of the minimum improvement.
    pub threshold: u64,
    /// Each candidate duration divided by its baseline duration.
    pub ratios: Vec<u64>,
    /// The mean of each two ratios, row by row.
    pub midpoints: Vec<u64>,
    /// The relative deviation of the baseline.
    pub baseline_relative_mad: u64,
    /// The relative deviation of the candidate.
    pub candidate_relative_mad: u64,
}

/// The same numbers, as sequences.
pub struct NumbersView {
    pub threshold_valid: bool,
    pub threshold: u64,
    pub ratios: Seq<u64>,
    pub midpoints: Seq<u64>,
    pub baseline_relative_mad: u64,
    pub candidate_relative_mad: u64,
}

impl View for ConfirmationNumbers {
    type V = NumbersView;

    open spec fn view(&self) -> NumbersView {
        NumbersView {
            threshold_valid: self.threshold_valid,
            threshold: self.threshold,
            ratios: self.ratios@,
            midpoints: self.midpoints@,
            baseline_relative_mad: self.baseline_relative_mad,
            candidate_relative_mad: self.candidate_relative_mad,
        }
    }
}

/// Whether the numbers hold one ratio for each pair and one mean for each two ratios.
pub open spec fn complete_numbers(numbers: NumbersView) -> bool {
    &&& numbers.ratios.len() == CONFIRMATION_PAIR_COUNT
    &&& numbers.midpoints.len() == CONFIRMATION_PAIR_COUNT * CONFIRMATION_PAIR_COUNT
}

/// The first place of `wanted`, at or after `from`.
pub open spec fn place_of(values: Seq<u64>, wanted: u64, from: int) -> int
    decreases values.len() - from,
{
    if from < 0 || from >= values.len() {
        0
    } else if values[from] == wanted {
        from
    } else {
        place_of(values, wanted, from + 1)
    }
}

/// The mean of two ratios.
pub open spec fn midpoint(numbers: NumbersView, first: u64, second: u64) -> u64 {
    numbers.midpoints[place_of(numbers.ratios, first, 0) * CONFIRMATION_PAIR_COUNT + place_of(
        numbers.ratios,
        second,
        0,
    )]
}

/// The median of as many ratios as there are pairs: the mean of the two middle ones.
pub open spec fn median_ratio_of(numbers: NumbersView, ratios: Seq<u64>) -> u64 {
    let sorted = increasing(ratios);
    midpoint(
        numbers,
        sorted[CONFIRMATION_PAIR_COUNT / 2 - 1],
        sorted[CONFIRMATION_PAIR_COUNT as int / 2],
    )
}

/// The state of the generator after `count` draws.
pub open spec fn generator_state(seed: u64, count: nat) -> u64
    decreases count,
{
    if count == 0 {
        seed
    } else {
        generator_state(seed, (count - 1) as nat).wrapping_add(0x9e37_79b9_7f4a_7c15)
    }
}

/// What the generator puts out in a state.
pub open spec fn generator_output(state: u64) -> u64 {
    let first = (state ^ (state >> 30)).wrapping_mul(0xbf58_476d_1ce4_e5b9);
    let second = (first ^ (first >> 27)).wrapping_mul(0x94d0_49bb_1331_11eb);
    second ^ (second >> 31)
}

/// The pair that draw number `count` picks, counting from zero.
pub open spec fn drawn_pair(seed: u64, count: nat) -> int {
    (generator_output(generator_state(seed, count + 1)) % (CONFIRMATION_PAIR_COUNT as u64)) as int
}

/// The ratios of resample number `round`.
pub open spec fn resample(ratios: Seq<u64>, seed: u64, round: nat) -> Seq<u64> {
    Seq::new(
        CONFIRMATION_PAIR_COUNT as nat,
        |i: int| ratios[drawn_pair(seed, (round * CONFIRMATION_PAIR_COUNT + i) as nat)],
    )
}

/// The medians of the first `count` resamples.
pub open spec fn estimates(numbers: NumbersView, seed: u64, count: nat) -> Seq<u64> {
    Seq::new(
        count,
        |round: int| median_ratio_of(numbers, resample(numbers.ratios, seed, round as nat)),
    )
}

/// A confidence interval, as bit patterns of its bounds.
#[derive(Clone, Copy, Debug, PartialEq, Eq, Structural)]
pub struct ConfidenceInterval {
    pub lower: u64,
    pub upper: u64,
}

/// The bootstrap interval of the paired ratios: two fixed order statistics of the estimates.
pub open spec fn interval_of(numbers: NumbersView, seed: u64) -> ConfidenceInterval {
    let sorted = increasing(estimates(numbers, seed, BOOTSTRAP_RESAMPLES as nat));
    ConfidenceInterval { lower: sorted[LOWER_PLACE as int], upper: sorted[UPPER_PLACE as int] }
}

/// Whether every resample has a finite median.
pub open spec fn finite_estimates(numbers: NumbersView, seed: u64, count: nat) -> bool {
    forall|round: int|
        0 <= round < count ==> is_finite_bits(
            #[trigger] median_ratio_of(numbers, resample(numbers.ratios, seed, round as nat)),
        )
}

/// A confirmation: its samples, its numbers as bit patterns, and its outcome.
#[derive(Debug)]
pub struct ConfirmationResult {
    pub baseline_durations_ns: Vec<u64>,
    pub candidate_durations_ns: Vec<u64>,
    pub median_ratio: u64,
    pub baseline_relative_mad: u64,
    pub candidate_relative_mad: u64,
    pub confidence_interval_95: ConfidenceInterval,
    pub threshold_ratio: u64,
    pub outcome: MeasurementOutcome,
}

/// A confirmation, as sequences.
pub struct ConfirmationView {
    pub baseline_durations_ns: Seq<u64>,
    pub candidate_durations_ns: Seq<u64>,
    pub median_ratio: u64,
    pub baseline_relative_mad: u64,
    pub candidate_relative_mad: u64,
    pub confidence_interval_95: ConfidenceInterval,
    pub threshold_ratio: u64,
    pub outcome: MeasurementOutcome,
}

impl View for ConfirmationResult {
    type V = ConfirmationView;

    open spec fn view(&self) -> ConfirmationView {
        ConfirmationView {
            baseline_durations_ns: self.baseline_durations_ns@,
            candidate_durations_ns: self.candidate_durations_ns@,
            median_ratio: self.median_ratio,
            baseline_relative_mad: self.baseline_relative_mad,
            candidate_relative_mad: self.candidate_relative_mad,
            confidence_interval_95: self.confidence_interval_95,
            threshold_ratio: self.threshold_ratio,
            outcome: self.outcome,
        }
    }
}

/// The outcome of a confirmation: dispersion decides first, then the median and the interval.
pub open spec fn confirmation_outcome(
    baseline_relative_mad: u64,
    candidate_relative_mad: u64,
    median_ratio: u64,
    interval: ConfidenceInterval,
    threshold: u64,
) -> MeasurementOutcome {
    if baseline_relative_mad > DISPERSION_LIMIT || candidate_relative_mad > DISPERSION_LIMIT {
        MeasurementOutcome::UnstableMeasurement
    } else if median_ratio <= threshold && interval.upper <= threshold {
        MeasurementOutcome::Accepted
    } else {
        MeasurementOutcome::InsufficientImprovement
    }
}

/// Why samples cannot be confirmed, before any ratio is looked at.
pub open spec fn pairing_error(
    baseline: Seq<u64>,
    candidate: Seq<u64>,
    threshold_valid: bool,
) -> Option<MeasurementError> {
    if baseline.len() == 0 || candidate.len() == 0 {
        Some(MeasurementError::EmptySamples)
    } else if baseline.len() != candidate.len() {
        Some(
            MeasurementError::UnequalPairCount {
                baseline: baseline.len() as usize,
                candidate: candidate.len() as usize,
            },
        )
    } else if baseline.len() != CONFIRMATION_PAIR_COUNT {
        Some(
            MeasurementError::WrongSampleCount {
                expected: CONFIRMATION_PAIR_COUNT,
                actual: baseline.len() as usize,
            },
        )
    } else if !threshold_valid {
        Some(MeasurementError::InvalidThreshold)
    } else if !nonzero(baseline) || !nonzero(candidate) {
        Some(MeasurementError::ZeroDuration)
    } else {
        None
    }
}

/// Whether every ratio is finite.
pub open spec fn finite_ratios(ratios: Seq<u64>) -> bool {
    forall|i: int| 0 <= i < ratios.len() ==> is_finite_bits(#[trigger] ratios[i])
}

/// Why paired samples cannot be decided.
pub open spec fn arithmetic_error(
    baseline: Seq<u64>,
    candidate: Seq<u64>,
    numbers: NumbersView,
    seed: u64,
) -> Option<MeasurementError> {
    if !finite_ratios(numbers.ratios) || !is_finite_bits(
        median_ratio_of(numbers, numbers.ratios),
    ) {
        Some(MeasurementError::NonFiniteValue)
    } else if spread_of(baseline) is Err {
        Some(spread_of(baseline)->Err_0)
    } else if !is_finite_bits(numbers.baseline_relative_mad) {
        Some(MeasurementError::NonFiniteValue)
    } else if spread_of(candidate) is Err {
        Some(spread_of(candidate)->Err_0)
    } else if !is_finite_bits(numbers.candidate_relative_mad) || !finite_estimates(
        numbers,
        seed,
        BOOTSTRAP_RESAMPLES as nat,
    ) || !is_finite_bits(numbers.threshold) {
        Some(MeasurementError::NonFiniteValue)
    } else {
        None
    }
}

/// The confirmation of paired samples, or why there is none.
pub open spec fn confirmed(
    baseline: Seq<u64>,
    candidate: Seq<u64>,
    numbers: NumbersView,
    seed: u64,
) -> Result<ConfirmationView, MeasurementError> {
    match pairing_error(baseline, candidate, numbers.threshold_valid) {
        Some(error) => Err(error),
        None => match arithmetic_error(baseline, candidate, numbers, seed) {
            Some(error) => Err(error),
            None => {
                let median_ratio = median_ratio_of(numbers, numbers.ratios);
                let interval = interval_of(numbers, seed);
                Ok(
                    ConfirmationView {
                        baseline_durations_ns: baseline,
                        candidate_durations_ns: candidate,
                        median_ratio,
                        baseline_relative_mad: numbers.baseline_relative_mad,
                        candidate_relative_mad: numbers.candidate_relative_mad,
                        confidence_interval_95: interval,
                        threshold_ratio: numbers.threshold,
                        outcome: confirmation_outcome(
                            numbers.baseline_relative_mad,
                            numbers.candidate_relative_mad,
                            median_ratio,
                            interval,
                            numbers.threshold,
                        ),
                    },
                )
            },
        },
    }
}

/// A generator of pseudo-random numbers with one word of state.
pub struct SplitMix64 {
    pub state: u64,
}

impl SplitMix64 {
    pub fn new(seed: u64) -> (generator: SplitMix64)
        ensures
            generator.state == seed,
    {
        SplitMix64 { state: seed }
    }

    pub fn next_u64(&mut self) -> (value: u64)
        ensures
            final(self).state == old(self).state.wrapping_add(0x9e37_79b9_7f4a_7c15),
            value == generator_output(final(self).state),
    {
        self.state = self.state.wrapping_add(0x9e37_79b9_7f4a_7c15);
        let state: u64 = self.state;
        let first: u64 = (state ^ (state >> 30)).wrapping_mul(0xbf58_476d_1ce4_e5b9);
        let second: u64 = (first ^ (first >> 27)).wrapping_mul(0x94d0_49bb_1331_11eb);
        second ^ (second >> 31)
    }
}

fn insert_increasing(sorted: &mut Vec<u64>, value: u64)
    requires
        forall|i: int, j: int|
            0 <= i <= j < old(sorted)@.len() ==> #[trigger] old(sorted)@[i]
                <= #[trigger] old(sorted)@[j],
    ensures
        forall|i: int, j: int|
            0 <= i <= j < final(sorted)@.len() ==> #[trigger] final(sorted)@[i]
                <= #[trigger] final(sorted)@[j],
        final(sorted)@.to_multiset() == old(sorted)@.to_multiset().insert(value),
{
    broadcast use vstd::seq_lib::group_to_multiset_ensures;

    let ghost before = sorted@;
    let mut place: usize = sorted.len();
    while place > 0 && sorted[place - 1] > value
        invariant
            sorted@ == before,
            place <= before.len(),
            forall|i: int| place <= i < before.len() ==> #[trigger] before[i] > value,
        decreases place,
    {
        place = place - 1;
    }
    sorted.insert(place, value);
    proof {
        let after = sorted@;
        assert(after.remove(place as int) =~= before);
        assert(after[place as int] == value);
        assert(after.contains(after[place as int]));
        assert(after.to_multiset().count(value) > 0);
        assert(after.to_multiset() =~= before.to_multiset().insert(value));
        assert forall|i: int, j: int| 0 <= i <= j < after.len() implies #[trigger] after[i]
            <= #[trigger] after[j] by {
            let a = if i < place {
                i
            } else {
                i - 1
            };
            let b = if j < place {
                j
            } else {
                j - 1
            };
            if i != place && j != place {
                assert(after[i] == before[a] && after[j] == before[b]);
            } else if i == place && j > place {
                assert(after[j] == before[b]);
            } else if j == place && i < place {
                assert(after[i] == before[a]);
                assert(before[a] <= before[place - 1]);
            }
        }
    }
}

/// Sorts a few numbers by insertion.
fn sort_few(values: &Vec<u64>) -> (sorted: Vec<u64>)
    ensures
        sorted@ == increasing(values@),
        sorted@.len() == values@.len(),
{
    broadcast use vstd::seq_lib::group_to_multiset_ensures;

    let mut sorted: Vec<u64> = Vec::new();
    let mut index: usize = 0;
    assert(values@.take(0) =~= sorted@);
    while index < values.len()
        invariant
            index <= values@.len(),
            sorted@.to_multiset() == values@.take(index as int).to_multiset(),
            forall|i: int, j: int|
                0 <= i <= j < sorted@.len() ==> #[trigger] sorted@[i] <= #[trigger] sorted@[j],
        decreases values@.len() - index,
    {
        insert_increasing(&mut sorted, values[index]);
        proof {
            broadcast use vstd::seq_lib::group_to_multiset_ensures;

            assert(values@.take(index + 1) =~= values@.take(index as int).push(
                values@[index as int],
            ));
        }
        index = index + 1;
    }
    proof {
        assert(values@.take(index as int) =~= values@);
        lemma_increasing(values@);
        lemma_sorted_lists_agree(sorted@, increasing(values@));
    }
    sorted
}

fn find_place(values: &Vec<u64>, wanted: u64) -> (place: usize)
    requires
        values@.len() > 0,
    ensures
        place == place_of(values@, wanted, 0),
        place < values@.len(),
{
    let mut index: usize = 0;
    while index < values.len()
        invariant
            index <= values@.len(),
            place_of(values@, wanted, 0) == place_of(values@, wanted, index as int),
        decreases values@.len() - index,
    {
        if values[index] == wanted {
            return index;
        }
        index = index + 1;
    }
    0
}

/// The median of as many ratios as there are pairs.
fn median_f64(numbers: &ConfirmationNumbers, ratios: &Vec<u64>) -> (median: u64)
    requires
        complete_numbers(numbers@),
        ratios@.len() == CONFIRMATION_PAIR_COUNT,
    ensures
        median == median_ratio_of(numbers@, ratios@),
{
    let sorted = sort_few(ratios);
    let first: usize = find_place(&numbers.ratios, sorted[CONFIRMATION_PAIR_COUNT / 2 - 1]);
    let second: usize = find_place(&numbers.ratios, sorted[CONFIRMATION_PAIR_COUNT / 2]);
    numbers.midpoints[first * CONFIRMATION_PAIR_COUNT + second]
}

/// The bootstrap interval of the paired ratios.
pub fn bootstrap_interval(numbers: &ConfirmationNumbers, seed: u64) -> (interval: Result<
    ConfidenceInterval,
    MeasurementError,
>)
    requires
        complete_numbers(numbers@),
    ensures
        interval == if finite_estimates(numbers@, seed, BOOTSTRAP_RESAMPLES as nat) {
            Ok::<ConfidenceInterval, MeasurementError>(interval_of(numbers@, seed))
        } else {
            Err::<ConfidenceInterval, MeasurementError>(MeasurementError::NonFiniteValue)
        },
{
    let ghost view = numbers@;
    let mut generator = SplitMix64::new(seed);
    let mut found: Vec<u64> = Vec::new();
    let mut round: usize = 0;
    assert(found@ =~= estimates(view, seed, 0));
    while round < BOOTSTRAP_RESAMPLES
        invariant
            round <= BOOTSTRAP_RESAMPLES,
            view == numbers@,
            complete_numbers(view),
            generator.state == generator_state(
                seed,
                (round * CONFIRMATION_PAIR_COUNT) as nat,
            ),
            found@ == estimates(view, seed, round as nat),
            finite_estimates(view, seed, round as nat),
        decreases BOOTSTRAP_RESAMPLES - round,
    {
        let mut drawn: Vec<u64> = Vec::new();
        let mut index: usize = 0;
        while index < CONFIRMATION_PAIR_COUNT
            invariant
                index <= CONFIRMATION_PAIR_COUNT,
                round < BOOTSTRAP_RESAMPLES,
                view == numbers@,
                complete_numbers(view),
                generator.state == generator_state(
                    seed,
                    (round * CONFIRMATION_PAIR_COUNT + index) as nat,
                ),
                drawn@.len() == index,
                forall|i: int|
                    0 <= i < index ==> #[trigger] drawn@[i] == view.ratios[drawn_pair(
                        seed,
                        (round * CONFIRMATION_PAIR_COUNT + i) as nat,
                    )],
            decreases CONFIRMATION_PAIR_COUNT - index,
        {
            let value: u64 = generator.next_u64();
            let pair: usize = (value % (CONFIRMATION_PAIR_COUNT as u64)) as usize;
            proof {
                let count = (round * CONFIRMATION_PAIR_COUNT + index) as nat;
                assert(generator.state == generator_state(seed, count + 1));
                assert(pair == drawn_pair(seed, count));
            }
            drawn.push(numbers.ratios[pair]);
            index = index + 1;
        }
        assert(drawn@ =~= resample(view.ratios, seed, round as nat));
        let estimate: u64 = median_f64(numbers, &drawn);
        if estimate >= INFINITE {
            proof {
                let at = round as int;
                assert(0 <= at < BOOTSTRAP_RESAMPLES as nat);
                assert(!is_finite_bits(
                    median_ratio_of(view, resample(view.ratios, seed, at as nat)),
                ));
                assert(!finite_estimates(view, seed, BOOTSTRAP_RESAMPLES as nat));
            }
            return Err(MeasurementError::NonFiniteValue);
        }
        found.push(estimate);
        assert(found@ =~= estimates(view, seed, (round + 1) as nat));
        round = round + 1;
        assert((round - 1) * CONFIRMATION_PAIR_COUNT + CONFIRMATION_PAIR_COUNT == round
            * CONFIRMATION_PAIR_COUNT);
    }
    let sorted = sort_numbers(&found);
    proof {
        lemma_increasing(found@);
    }
    Ok(ConfidenceInterval { lower: sorted[LOWER_PLACE], upper: sorted[UPPER_PLACE] })
}

fn paired_ratios(ratios: &Vec<u64>) -> (checked: bool)
    ensures
        checked == finite_ratios(ratios@),
{
    let mut index: usize = 0;
    while index < ratios.len()
        invariant
            index <= ratios@.len(),
            forall|i: int| 0 <= i < index ==> is_finite_bits(#[trigger] ratios@[i]),
        decreases ratios@.len() - index,
    {
        if ratios[index] >= INFINITE {
            return false;
        }
        index = index + 1;
    }
    true
}

/// Checks paired samples before any ratio is looked at.
pub fn check_pairs(baseline: &Vec<u64>, candidate: &Vec<u64>, threshold_valid: bool) -> (checked:
    Result<(), MeasurementError>)
    ensures
        match checked {
            Ok(_) => pairing_error(baseline@, candidate@, threshold_valid) is None,
            Err(error) => pairing_error(baseline@, candidate@, threshold_valid) == Some(error),
        },
{
    if baseline.len() == 0 || candidate.len() == 0 {
        return Err(MeasurementError::EmptySamples);
    }
    if baseline.len() != candidate.len() {
        return Err(
            MeasurementError::UnequalPairCount {
                baseline: baseline.len(),
                candidate: candidate.len(),
            },
        );
    }
    if baseline.len() != CONFIRMATION_PAIR_COUNT {
        return Err(
            MeasurementError::WrongSampleCount {
                expected: CONFIRMATION_PAIR_COUNT,
                actual: baseline.len(),
            },
        );
    }
    if !threshold_valid {
        return Err(MeasurementError::InvalidThreshold);
    }
    if let Err(error) = validate_durations(baseline) {
        return Err(error);
    }
    validate_durations(candidate)
}

/// Confirms a candidate against the baseline over paired samples. `numbers` holds what the
/// double arithmetic on these samples gives.
pub fn confirmation(
    baseline: &Vec<u64>,
    candidate: &Vec<u64>,
    numbers: &ConfirmationNumbers,
    bootstrap_seed: u64,
) -> (result: Result<ConfirmationResult, MeasurementError>)
    requires
        pairing_error(baseline@, candidate@, numbers.threshold_valid) is None ==> complete_numbers(
            numbers@,
        ),
    ensures
        match result {
            Ok(found) => confirmed(baseline@, candidate@, numbers@, bootstrap_seed) == Ok::<
                ConfirmationView,
                MeasurementError,
            >(found@),
            Err(error) => confirmed(baseline@, candidate@, numbers@, bootstrap_seed) == Err::<
                ConfirmationView,
                MeasurementError,
            >(error),
        },
{
    if let Err(error) = check_pairs(baseline, candidate, numbers.threshold_valid) {
        return Err(error);
    }
    if !paired_ratios(&numbers.ratios) {
        return Err(MeasurementError::NonFiniteValue);
    }
    let median_ratio: u64 = median_f64(numbers, &numbers.ratios);
    if median_ratio >= INFINITE {
        return Err(MeasurementError::NonFiniteValue);
    }
    if let Err(error) = relative_mad(baseline) {
        return Err(error);
    }
    if numbers.baseline_relative_mad >= INFINITE {
        return Err(MeasurementError::NonFiniteValue);
    }
    if let Err(error) = relative_mad(candidate) {
        return Err(error);
    }
    if numbers.candidate_relative_mad >= INFINITE {
        return Err(MeasurementError::NonFiniteValue);
    }
    let interval = match bootstrap_interval(numbers, bootstrap_seed) {
        Ok(interval) => interval,
        Err(error) => return Err(error),
    };
    if numbers.threshold >= INFINITE {
        return Err(MeasurementError::NonFiniteValue);
    }
    let outcome: MeasurementOutcome = if numbers.baseline_relative_mad > DISPERSION_LIMIT
        || numbers.candidate_relative_mad > DISPERSION_LIMIT {
        MeasurementOutcome::UnstableMeasurement
    } else if median_ratio <= numbers.threshold && interval.upper <= numbers.threshold {
        MeasurementOutcome::Accepted
    } else {
        MeasurementOutcome::InsufficientImprovement
    };
    Ok(
        ConfirmationResult {
            baseline_durations_ns: baseline.clone(),
            candidate_durations_ns: candidate.clone(),
            median_ratio,
            baseline_relative_mad: numbers.baseline_relative_mad,
            candidate_relative_mad: numbers.candidate_relative_mad,
            confidence_interval_95: interval,
            threshold_ratio: numbers.threshold,
            outcome,
        },
    )
}

/// Dispersion overrides everything else, and an accepted confirmation has a stable baseline, a
/// stable candidate, and a median and an interval that both reach the threshold.
pub proof fn law_acceptance_is_conservative(
    baseline: Seq<u64>,
    candidate: Seq<u64>,
    numbers: NumbersView,
    seed: u64,
)
    requires
        confirmed(baseline, candidate, numbers, seed) is Ok,
    ensures
        ({
            let found = confirmed(baseline, candidate, numbers, seed)->Ok_0;
            &&& found.outcome == MeasurementOutcome::UnstableMeasurement
                <==> found.baseline_relative_mad > DISPERSION_LIMIT || found.candidate_relative_mad
                > DISPERSION_LIMIT
            &&& found.outcome == MeasurementOutcome::Accepted ==> {
                &&& found.baseline_relative_mad <= DISPERSION_LIMIT
                &&& found.candidate_relative_mad <= DISPERSION_LIMIT
                &&& found.median_ratio <= found.threshold_ratio
                &&& found.confidence_interval_95.upper <= found.threshold_ratio
            }
            &&& found.outcome != MeasurementOutcome::Stable
        }),
{
}

/// The bounds of a bootstrap interval are in order.
pub proof fn law_interval_bounds_are_ordered(numbers: NumbersView, seed: u64)
    ensures
        interval_of(numbers, seed).lower <= interval_of(numbers, seed).upper,
{
    lemma_increasing(estimates(numbers, seed, BOOTSTRAP_RESAMPLES as nat));
}

/// Whether two confirmations have the same numbers but for the threshold.
pub open spec fn differ_in_threshold(left: NumbersView, right: NumbersView) -> bool {
    right == (NumbersView { threshold: right.threshold, ..left })
}

/// The threshold only decides the outcome: under a looser valid threshold the same samples are
/// confirmed with the same median, dispersions and interval, and what the stricter one accepts the
/// looser one accepts too.
pub proof fn law_looser_thresholds_accept_more(
    baseline: Seq<u64>,
    candidate: Seq<u64>,
    stricter: NumbersView,
    looser: NumbersView,
    seed: u64,
)
    requires
        differ_in_threshold(stricter, looser),
        stricter.threshold <= looser.threshold,
        is_finite_bits(looser.threshold),
        confirmed(baseline, candidate, stricter, seed) is Ok,
    ensures
        confirmed(baseline, candidate, looser, seed) is Ok,
        ({
            let strict = confirmed(baseline, candidate, stricter, seed)->Ok_0;
            let loose = confirmed(baseline, candidate, looser, seed)->Ok_0;
            &&& loose.median_ratio == strict.median_ratio
            &&& loose.baseline_relative_mad == strict.baseline_relative_mad
            &&& loose.candidate_relative_mad == strict.candidate_relative_mad
            &&& loose.confidence_interval_95 == strict.confidence_interval_95
            &&& loose.baseline_durations_ns == strict.baseline_durations_ns
            &&& loose.candidate_durations_ns == strict.candidate_durations_ns
            &&& strict.outcome == MeasurementOutcome::Accepted ==> loose.outcome
                == MeasurementOutcome::Accepted
            &&& strict.outcome == MeasurementOutcome::UnstableMeasurement <==> loose.outcome
                == MeasurementOutcome::UnstableMeasurement
        }),
{
    let count = BOOTSTRAP_RESAMPLES as nat;
    assert forall|round: int| 0 <= round < count implies #[trigger] median_ratio_of(
        looser,
        resample(looser.ratios, seed, round as nat),
    ) == median_ratio_of(stricter, resample(stricter.ratios, seed, round as nat)) by {}
    assert(estimates(looser, seed, count) =~= estimates(stricter, seed, count));
    assert(finite_estimates(looser, seed, count));
}

/// Whether every finite mean of two ratios lies between them.
pub open spec fn means_lie_between(numbers: NumbersView) -> bool {
    forall|i: int, j: int|
        0 <= i < CONFIRMATION_PAIR_COUNT && 0 <= j < CONFIRMATION_PAIR_COUNT ==> lies_between(
            #[trigger] numbers.midpoints[i * CONFIRMATION_PAIR_COUNT + j],
            numbers.ratios[i],
            numbers.ratios[j],
        )
}

/// Whether a mean, if it is finite, lies between its two numbers.
pub open spec fn lies_between(mean: u64, first: u64, second: u64) -> bool {
    is_finite_bits(mean) ==> (first <= mean <= second || second <= mean <= first)
}

proof fn lemma_place_found(values: Seq<u64>, wanted: u64, from: int, at: int)
    requires
        0 <= from <= at < values.len(),
        values[at] == wanted,
    ensures
        from <= place_of(values, wanted, from) < values.len(),
        values[place_of(values, wanted, from)] == wanted,
    decreases values.len() - from,
{
    if values[from] != wanted {
        lemma_place_found(values, wanted, from + 1, at);
    }
}

proof fn lemma_median_ratio_within(
    numbers: NumbersView,
    ratios: Seq<u64>,
    least: u64,
    greatest: u64,
)
    requires
        complete_numbers(numbers),
        means_lie_between(numbers),
        forall|i: int|
            0 <= i < numbers.ratios.len() ==> least <= #[trigger] numbers.ratios[i] <= greatest,
        ratios.len() == CONFIRMATION_PAIR_COUNT,
        forall|i: int|
            0 <= i < ratios.len() ==> numbers.ratios.contains(#[trigger] ratios[i]),
        is_finite_bits(median_ratio_of(numbers, ratios)),
    ensures
        least <= median_ratio_of(numbers, ratios) <= greatest,
{
    broadcast use vstd::seq_lib::group_to_multiset_ensures;

    lemma_increasing(ratios);
    let sorted = increasing(ratios);
    let middle = CONFIRMATION_PAIR_COUNT as int / 2;
    assert forall|i: int| 0 <= i < sorted.len() implies numbers.ratios.contains(
        #[trigger] sorted[i],
    ) by {
        assert(sorted.contains(sorted[i]));
        assert(ratios.to_multiset().count(sorted[i]) > 0);
        assert(ratios.contains(sorted[i]));
    }
    assert(sorted.len() == ratios.len());
    let first = sorted[middle - 1];
    let second = sorted[middle];
    assert(numbers.ratios.contains(first) && numbers.ratios.contains(second));
    let first_at = choose|i: int| 0 <= i < numbers.ratios.len() && numbers.ratios[i] == first;
    let second_at = choose|i: int| 0 <= i < numbers.ratios.len() && numbers.ratios[i] == second;
    lemma_place_found(numbers.ratios, first, 0, first_at);
    lemma_place_found(numbers.ratios, second, 0, second_at);
    let row = place_of(numbers.ratios, first, 0);
    let column = place_of(numbers.ratios, second, 0);
    assert(lies_between(
        numbers.midpoints[row * CONFIRMATION_PAIR_COUNT + column],
        numbers.ratios[row],
        numbers.ratios[column],
    ));
}

/// The median and the interval of a confirmation are finite and lie between the least and the
/// greatest of its ratios.
pub proof fn law_intervals_lie_among_the_ratios(
    baseline: Seq<u64>,
    candidate: Seq<u64>,
    numbers: NumbersView,
    seed: u64,
    least: u64,
    greatest: u64,
)
    requires
        complete_numbers(numbers),
        means_lie_between(numbers),
        forall|i: int|
            0 <= i < numbers.ratios.len() ==> least <= #[trigger] numbers.ratios[i] <= greatest,
        confirmed(baseline, candidate, numbers, seed) is Ok,
    ensures
        ({
            let found = confirmed(baseline, candidate, numbers, seed)->Ok_0;
            let interval = found.confidence_interval_95;
            &&& least <= found.median_ratio <= greatest
            &&& least <= interval.lower <= interval.upper <= greatest
            &&& is_finite_bits(found.median_ratio)
            &&& is_finite_bits(interval.lower)
            &&& is_finite_bits(interval.upper)
        }),
{
    broadcast use vstd::seq_lib::group_to_multiset_ensures;

    let count = BOOTSTRAP_RESAMPLES as nat;
    let found = estimates(numbers, seed, count);
    let sorted = increasing(found);
    assert forall|i: int| 0 <= i < numbers.ratios.len() implies numbers.ratios.contains(
        #[trigger] numbers.ratios[i],
    ) by {}
    lemma_median_ratio_within(numbers, numbers.ratios, least, greatest);
    assert forall|round: int| 0 <= round < found.len() implies {
        &&& least <= #[trigger] found[round] <= greatest
        &&& is_finite_bits(found[round])
    } by {
        let drawn = resample(numbers.ratios, seed, round as nat);
        assert(found[round] == median_ratio_of(numbers, drawn));
        assert forall|i: int| 0 <= i < drawn.len() implies numbers.ratios.contains(
            #[trigger] drawn[i],
        ) by {
            let pair = drawn_pair(seed, (round * CONFIRMATION_PAIR_COUNT + i) as nat);
            assert(0 <= pair < CONFIRMATION_PAIR_COUNT);
            assert(drawn[i] == numbers.ratios[pair]);
        }
        lemma_median_ratio_within(numbers, drawn, least, greatest);
    }
    lemma_increasing(found);
    assert forall|i: int| 0 <= i < sorted.len() implies found.contains(#[trigger] sorted[i]) by {
        assert(sorted.contains(sorted[i]));
        assert(found.to_multiset().count(sorted[i]) > 0);
    }
    assert(found.contains(sorted[LOWER_PLACE as int]));
    assert(found.contains(sorted[UPPER_PLACE as int]));
}

/// A median does not depend on the order of its samples.
pub proof fn law_medians_ignore_order(left: Seq<u64>, right: Seq<u64>)
    requires
        left.to_multiset() == right.to_multiset(),
    ensures
        median_of(left) == median_of(right),
{
    left.to_multiset_ensures();
    right.to_multiset_ensures();
    lemma_increasing_ignores_order(left, right);
}

/// A median lies between the least and the greatest of its samples.
pub proof fn law_medians_lie_among_their_samples(samples: Seq<u64>, least: u64, greatest: u64)
    requires
        samples.len() > 0,
        forall|i: int| 0 <= i < samples.len() ==> least <= #[trigger] samples[i] <= greatest,
        median_of(samples) is Ok,
    ensures
        least <= median_of(samples)->Ok_0 <= greatest,
{
    broadcast use vstd::seq_lib::group_to_multiset_ensures;

    lemma_increasing(samples);
    let sorted = increasing(samples);
    assert forall|i: int| 0 <= i < sorted.len() implies least <= #[trigger] sorted[i]
        <= greatest by {
        assert(sorted.contains(sorted[i]));
        assert(samples.to_multiset().count(sorted[i]) > 0);
        assert(samples.contains(sorted[i]));
    }
    let middle = (samples.len() / 2) as int;
    assert(least <= sorted[middle] <= greatest);
    if samples.len() % 2 == 0 {
        assert(least <= sorted[middle - 1] <= greatest);
    }
}

/// A median splits its samples. Of an odd count it is one of the samples, and more than half of
/// them are no greater and more than half no less. Of an even count it is the mean, rounded down,
/// of the two samples between which the halves part. There is one for every sample list but the
/// empty one, and but for two middle samples whose sum is no machine number.
pub proof fn law_medians_split_their_samples(samples: Seq<u64>)
    ensures
        samples.len() == 0 <==> median_of(samples) == Err::<u64, MeasurementError>(
            MeasurementError::EmptySamples,
        ),
        samples.len() % 2 == 1 ==> {
            &&& median_of(samples) is Ok
            &&& samples.contains(median_of(samples)->Ok_0)
            &&& 2 * count_at_most(samples, median_of(samples)->Ok_0) > samples.len()
            &&& 2 * count_at_least(samples, median_of(samples)->Ok_0) > samples.len()
        },
        samples.len() > 0 && samples.len() % 2 == 0 ==> exists|low: u64, high: u64|
            {
                &&& #[trigger] parts_in_halves(samples, low, high)
                &&& median_of(samples) == if low + high > u64::MAX {
                    Err::<u64, MeasurementError>(MeasurementError::ArithmeticOverflow)
                } else {
                    Ok::<u64, MeasurementError>(((low + high) / 2) as u64)
                }
            },
{
    let middle = (samples.len() / 2) as int;
    if samples.len() > 0 {
        lemma_order_statistic(samples, middle);
        if samples.len() % 2 == 0 {
            lemma_order_statistic(samples, middle - 1);
            lemma_increasing(samples);
            let sorted = increasing(samples);
            assert(sorted[middle - 1] <= sorted[middle]);
            assert(parts_in_halves(samples, sorted[middle - 1], sorted[middle]));
        }
    }
}

/// Whether an even count of numbers parts between `low` and `high`: half of the numbers are no
/// greater than `low`, half no less than `high`, and both are among the numbers.
pub open spec fn parts_in_halves(values: Seq<u64>, low: u64, high: u64) -> bool {
    &&& values.contains(low)
    &&& values.contains(high)
    &&& low <= high
    &&& 2 * count_at_most(values, low) >= values.len()
    &&& 2 * count_at_least(values, low) > values.len()
    &&& 2 * count_at_most(values, high) > values.len()
    &&& 2 * count_at_least(values, high) >= values.len()
}

/// The deviation of samples is the median of their distances from their median.
pub proof fn law_deviations_are_medians_of_distances(samples: Seq<u64>, distances: Seq<u64>)
    requires
        spread_of(samples) is Ok,
        distances.len() == samples.len(),
        forall|i: int|
            0 <= i < samples.len() ==> #[trigger] distances[i] as int == if samples[i]
                < spread_of(samples)->Ok_0.median {
                spread_of(samples)->Ok_0.median - samples[i]
            } else {
                samples[i] - spread_of(samples)->Ok_0.median
            },
    ensures
        median_of(samples) == Ok::<u64, MeasurementError>(spread_of(samples)->Ok_0.median),
        median_of(distances) == Ok::<u64, MeasurementError>(spread_of(samples)->Ok_0.deviation),
        spread_of(samples)->Ok_0.median > 0,
{
    assert(distances =~= deviations_of(samples, spread_of(samples)->Ok_0.median));
}

/// A screening is accepted exactly for seven nonzero samples whose relative deviation is finite.
/// It records these samples, that deviation, and their median: one of the samples, with at least
/// four samples no greater and at least four no less. It is stable exactly where the deviation is
/// at most a tenth.
pub proof fn law_screenings_record_their_median(samples: Seq<u64>, relative_mad: u64)
    ensures
        screened(samples, relative_mad) is Ok <==> {
            &&& samples.len() == 7
            &&& !samples.contains(0)
            &&& relative_mad < 0x7ff0_0000_0000_0000
        },
        screened(samples, relative_mad) matches Ok(found) ==> {
            &&& found.sample_durations_ns == samples
            &&& found.relative_mad == relative_mad
            &&& samples.contains(found.median_duration_ns)
            &&& count_at_most(samples, found.median_duration_ns) >= 4
            &&& count_at_least(samples, found.median_duration_ns) >= 4
            &&& found.outcome == if relative_mad <= 0x3fb9_9999_9999_999a {
                MeasurementOutcome::Stable
            } else {
                MeasurementOutcome::UnstableMeasurement
            }
        },
        screened(samples, relative_mad) matches Err(error) ==> error == if samples.len() == 0 {
            MeasurementError::EmptySamples
        } else if samples.len() != 7 {
            MeasurementError::WrongSampleCount { expected: 7, actual: samples.len() as usize }
        } else if samples.contains(0) {
            MeasurementError::ZeroDuration
        } else {
            MeasurementError::NonFiniteValue
        },
{
    assert(nonzero(samples) <==> !samples.contains(0)) by {
        if !nonzero(samples) {
            let i = choose|i: int| 0 <= i < samples.len() && samples[i] == 0;
            assert(samples.contains(samples[i]));
        }
    }
    if samples.len() == 7 {
        law_medians_split_their_samples(samples);
        let median = median_of(samples)->Ok_0;
        let deviations = deviations_of(samples, median);
        assert(deviations.len() == 7);
        law_medians_split_their_samples(deviations);
    }
}

/// Output number `count` of the SplitMix64 stream of a seed, counting from one: the seed and
/// `count` steps of the golden gamma, mixed by two multiplications, all modulo two to the power of
/// sixty-four.
pub open spec fn splitmix64(seed: u64, count: nat) -> u64 {
    let state = ((seed + count * 0x9e37_79b9_7f4a_7c15) % 0x1_0000_0000_0000_0000) as u64;
    let first = (((state ^ (state >> 30)) * 0xbf58_476d_1ce4_e5b9) % 0x1_0000_0000_0000_0000)
        as u64;
    let second = (((first ^ (first >> 27)) * 0x94d0_49bb_1331_11eb) % 0x1_0000_0000_0000_0000)
        as u64;
    second ^ (second >> 31)
}

proof fn lemma_wrapped_step(before: int, state: u64)
    requires
        0 <= before,
        state == before % 0x1_0000_0000_0000_0000,
    ensures
        state.wrapping_add(0x9e37_79b9_7f4a_7c15) == (before + 0x9e37_79b9_7f4a_7c15)
            % 0x1_0000_0000_0000_0000,
{
    let turns = before / 0x1_0000_0000_0000_0000;
    let next = state.wrapping_add(0x9e37_79b9_7f4a_7c15) as int;
    let sum = state + 0x9e37_79b9_7f4a_7c15;
    vstd::arithmetic::div_mod::lemma_fundamental_div_mod(before, 0x1_0000_0000_0000_0000);
    if sum < 0x1_0000_0000_0000_0000 {
        assert(next == sum);
        vstd::arithmetic::div_mod::lemma_fundamental_div_mod_converse(
            before + 0x9e37_79b9_7f4a_7c15,
            0x1_0000_0000_0000_0000,
            turns,
            next,
        );
    } else {
        assert(next == sum - 0x1_0000_0000_0000_0000);
        vstd::arithmetic::div_mod::lemma_fundamental_div_mod_converse(
            before + 0x9e37_79b9_7f4a_7c15,
            0x1_0000_0000_0000_0000,
            turns + 1,
            next,
        );
    }
}

proof fn lemma_state_in_closed_form(seed: u64, count: nat)
    ensures
        generator_state(seed, count) == (seed + count * 0x9e37_79b9_7f4a_7c15)
            % 0x1_0000_0000_0000_0000,
    decreases count,
{
    if count > 0 {
        lemma_state_in_closed_form(seed, (count - 1) as nat);
        let before = seed + (count - 1) * 0x9e37_79b9_7f4a_7c15;
        lemma_wrapped_step(before, generator_state(seed, (count - 1) as nat));
        assert(seed + count * 0x9e37_79b9_7f4a_7c15 == before + 0x9e37_79b9_7f4a_7c15);
    }
}

/// Draw by draw the generator puts out the SplitMix64 stream of its seed.
pub proof fn law_generator_puts_out_splitmix64(seed: u64, count: nat)
    requires
        count > 0,
    ensures
        generator_output(generator_state(seed, count)) == splitmix64(seed, count),
{
    lemma_state_in_closed_form(seed, count);
}

/// Every resample draws twenty pairs with replacement: draw number `index` of round `round` takes
/// the pair that the next output of the seed's SplitMix64 stream names modulo twenty.
pub proof fn law_resamples_draw_from_the_stream(
    ratios: Seq<u64>,
    seed: u64,
    round: nat,
    index: int,
)
    requires
        0 <= index < 20,
    ensures
        resample(ratios, seed, round).len() == 20,
        resample(ratios, seed, round)[index] == ratios[(splitmix64(
            seed,
            (20 * round + index + 1) as nat,
        ) % 20) as int],
{
    let count = (round * CONFIRMATION_PAIR_COUNT + index) as nat;
    assert(count + 1 == 20 * round + index + 1);
    law_generator_puts_out_splitmix64(seed, count + 1);
}

/// Two draws whose outputs name different pairs take different ratios, wherever the ratios of
/// those pairs differ: a resample is not the sample again.
pub proof fn law_different_draws_take_different_pairs(
    ratios: Seq<u64>,
    seed: u64,
    round: nat,
    index: int,
    other_round: nat,
    other_index: int,
)
    requires
        ratios.len() == 20,
        0 <= index < 20,
        0 <= other_index < 20,
        ratios[(splitmix64(seed, (20 * round + index + 1) as nat) % 20) as int]
            != ratios[(splitmix64(seed, (20 * other_round + other_index + 1) as nat) % 20) as int],
    ensures
        resample(ratios, seed, round)[index] != resample(ratios, seed, other_round)[other_index],
{
    law_resamples_draw_from_the_stream(ratios, seed, round, index);
    law_resamples_draw_from_the_stream(ratios, seed, other_round, other_index);
}

/// Whether the mean of two ratios depends on the ratios alone, as the mean of two doubles does.
pub open spec fn means_depend_on_ratios(numbers: NumbersView) -> bool {
    forall|i: int, j: int, k: int, l: int|
        #![trigger numbers.midpoints[20 * i + j], numbers.midpoints[20 * k + l]]
        0 <= i < 20 && 0 <= j < 20 && 0 <= k < 20 && 0 <= l < 20 && numbers.ratios[i]
            == numbers.ratios[k] && numbers.ratios[j] == numbers.ratios[l]
            ==> numbers.midpoints[20 * i + j] == numbers.midpoints[20 * k + l]
}

/// Whether `median` is the mean of the ratios of two pairs between which twenty drawn ratios part
/// in halves.
pub open spec fn is_middle_mean(numbers: NumbersView, drawn: Seq<u64>, median: u64) -> bool {
    exists|i: int, j: int|
        {
            &&& 0 <= i < 20
            &&& 0 <= j < 20
            &&& parts_in_halves(drawn, numbers.ratios[i], numbers.ratios[j])
            &&& median == #[trigger] numbers.midpoints[20 * i + j]
        }
}

/// The median of twenty ratios is the mean of the two in the middle, and nothing else is.
pub proof fn law_median_ratios_are_middle_means(
    numbers: NumbersView,
    drawn: Seq<u64>,
    median: u64,
)
    requires
        numbers.ratios.len() == 20,
        numbers.midpoints.len() == 400,
        means_depend_on_ratios(numbers),
        drawn.len() == 20,
        forall|i: int| 0 <= i < 20 ==> numbers.ratios.contains(#[trigger] drawn[i]),
    ensures
        median == median_ratio_of(numbers, drawn) <==> is_middle_mean(numbers, drawn, median),
{
    lemma_order_statistic(drawn, 9);
    lemma_order_statistic(drawn, 10);
    lemma_increasing(drawn);
    let sorted = increasing(drawn);
    let low = sorted[9];
    let high = sorted[10];
    let low_at = choose|i: int| 0 <= i < drawn.len() && drawn[i] == low;
    let high_at = choose|i: int| 0 <= i < drawn.len() && drawn[i] == high;
    assert(numbers.ratios.contains(drawn[low_at]));
    assert(numbers.ratios.contains(drawn[high_at]));
    let first_at = choose|i: int| 0 <= i < numbers.ratios.len() && numbers.ratios[i] == low;
    let second_at = choose|i: int| 0 <= i < numbers.ratios.len() && numbers.ratios[i] == high;
    lemma_place_found(numbers.ratios, low, 0, first_at);
    lemma_place_found(numbers.ratios, high, 0, second_at);
    let row = place_of(numbers.ratios, low, 0);
    let column = place_of(numbers.ratios, high, 0);
    assert(row * CONFIRMATION_PAIR_COUNT + column == 20 * row + column);
    assert(median_ratio_of(numbers, drawn) == numbers.midpoints[20 * row + column]);
    assert(parts_in_halves(drawn, numbers.ratios[row], numbers.ratios[column]));
    if is_middle_mean(numbers, drawn, median) {
        let (i, j) = choose|i: int, j: int|
            {
                &&& 0 <= i < 20
                &&& 0 <= j < 20
                &&& parts_in_halves(drawn, numbers.ratios[i], numbers.ratios[j])
                &&& median == #[trigger] numbers.midpoints[20 * i + j]
            };
        lemma_order_statistic_is_unique(drawn, 9, numbers.ratios[i]);
        lemma_order_statistic_is_unique(drawn, 10, numbers.ratios[j]);
        assert(numbers.midpoints[20 * i + j] == numbers.midpoints[20 * row + column]);
    }
}

/// The interval of a confirmation is the bootstrap interval at ninety-five percent: of the medians
/// of ten thousand resamples, each of twenty pairs drawn by the seed's SplitMix64 stream, at least
/// 250 are no greater than the lower bound and at least 9751 no less, and the other way round for
/// the upper bound. There is an interval exactly where all these medians are finite.
pub proof fn law_intervals_are_bootstrap_percentiles(
    numbers: NumbersView,
    seed: u64,
    drawn: Seq<Seq<u64>>,
    medians: Seq<u64>,
)
    requires
        numbers.ratios.len() == 20,
        numbers.midpoints.len() == 400,
        means_depend_on_ratios(numbers),
        drawn.len() == 10_000,
        forall|round: int| 0 <= round < 10_000 ==> (#[trigger] drawn[round]).len() == 20,
        forall|round: int, index: int|
            0 <= round < 10_000 && 0 <= index < 20 ==> #[trigger] drawn[round][index]
                == numbers.ratios[(splitmix64(seed, (20 * round + index + 1) as nat) % 20) as int],
        medians.len() == 10_000,
        forall|round: int|
            0 <= round < 10_000 ==> is_middle_mean(
                numbers,
                drawn[round],
                #[trigger] medians[round],
            ),
    ensures
        finite_estimates(numbers, seed, BOOTSTRAP_RESAMPLES as nat) <==> forall|round: int|
            0 <= round < 10_000 ==> #[trigger] medians[round] < 0x7ff0_0000_0000_0000,
        ({
            let interval = interval_of(numbers, seed);
            &&& medians.contains(interval.lower)
            &&& count_at_most(medians, interval.lower) >= 250
            &&& count_at_least(medians, interval.lower) >= 9_751
            &&& medians.contains(interval.upper)
            &&& count_at_most(medians, interval.upper) >= 9_751
            &&& count_at_least(medians, interval.upper) >= 250
        }),
{
    let count = BOOTSTRAP_RESAMPLES as nat;
    let found = estimates(numbers, seed, count);
    assert forall|round: int| 0 <= round < 10_000 implies #[trigger] medians[round]
        == median_ratio_of(numbers, resample(numbers.ratios, seed, round as nat)) by {
        let expected = resample(numbers.ratios, seed, round as nat);
        assert forall|index: int| 0 <= index < 20 implies #[trigger] expected[index]
            == drawn[round][index] && numbers.ratios.contains(expected[index]) by {
            law_resamples_draw_from_the_stream(numbers.ratios, seed, round as nat, index);
        }
        assert(expected.len() == 20);
        assert(expected =~= drawn[round]);
        law_median_ratios_are_middle_means(numbers, expected, medians[round]);
    }
    assert(found =~= medians);
    assert forall|round: int| 0 <= round < count implies #[trigger] median_ratio_of(
        numbers,
        resample(numbers.ratios, seed, round as nat),
    ) == medians[round] by {}
    lemma_order_statistic(medians, 249);
    lemma_order_statistic(medians, 9_750);
}

/// A confirmation records its samples and its numbers, with the median of all twenty ratios, and
/// is decided by them alone: unstable where either dispersion is above a tenth, otherwise accepted
/// exactly where both the median and the upper bound of the interval reach the threshold.
pub proof fn law_confirmations_are_decided_by_their_numbers(
    baseline: Seq<u64>,
    candidate: Seq<u64>,
    numbers: NumbersView,
    seed: u64,
)
    requires
        confirmed(baseline, candidate, numbers, seed) is Ok,
        numbers.ratios.len() == 20,
        numbers.midpoints.len() == 400,
        means_depend_on_ratios(numbers),
    ensures
        baseline.len() == 20,
        candidate.len() == 20,
        !baseline.contains(0),
        !candidate.contains(0),
        numbers.threshold_valid,
        ({
            let found = confirmed(baseline, candidate, numbers, seed)->Ok_0;
            let limit = 0x3fb9_9999_9999_999au64;
            &&& found.baseline_durations_ns == baseline
            &&& found.candidate_durations_ns == candidate
            &&& is_middle_mean(numbers, numbers.ratios, found.median_ratio)
            &&& found.baseline_relative_mad == numbers.baseline_relative_mad
            &&& found.candidate_relative_mad == numbers.candidate_relative_mad
            &&& found.confidence_interval_95 == interval_of(numbers, seed)
            &&& found.threshold_ratio == numbers.threshold
            &&& found.outcome == if numbers.baseline_relative_mad > limit
                || numbers.candidate_relative_mad > limit {
                MeasurementOutcome::UnstableMeasurement
            } else if found.median_ratio <= numbers.threshold
                && found.confidence_interval_95.upper <= numbers.threshold {
                MeasurementOutcome::Accepted
            } else {
                MeasurementOutcome::InsufficientImprovement
            }
        }),
{
    assert forall|i: int| 0 <= i < 20 implies numbers.ratios.contains(
        #[trigger] numbers.ratios[i],
    ) by {}
    law_median_ratios_are_middle_means(
        numbers,
        numbers.ratios,
        median_ratio_of(numbers, numbers.ratios),
    );
}

/// Twenty nonzero pairs under a valid threshold are confirmed wherever every number is finite and
/// both sides have a spread; nothing else is.
pub proof fn law_finite_pairs_are_confirmed(
    baseline: Seq<u64>,
    candidate: Seq<u64>,
    numbers: NumbersView,
    seed: u64,
)
    ensures
        confirmed(baseline, candidate, numbers, seed) is Ok <==> {
            &&& baseline.len() == 20
            &&& candidate.len() == 20
            &&& !baseline.contains(0)
            &&& !candidate.contains(0)
            &&& numbers.threshold_valid
            &&& forall|i: int|
                0 <= i < numbers.ratios.len() ==> #[trigger] numbers.ratios[i]
                    < 0x7ff0_0000_0000_0000
            &&& median_ratio_of(numbers, numbers.ratios) < 0x7ff0_0000_0000_0000
            &&& spread_of(baseline) is Ok
            &&& spread_of(candidate) is Ok
            &&& numbers.baseline_relative_mad < 0x7ff0_0000_0000_0000
            &&& numbers.candidate_relative_mad < 0x7ff0_0000_0000_0000
            &&& numbers.threshold < 0x7ff0_0000_0000_0000
            &&& finite_estimates(numbers, seed, BOOTSTRAP_RESAMPLES as nat)
        },
{
    assert(nonzero(baseline) <==> !baseline.contains(0)) by {
        if !nonzero(baseline) {
            let i = choose|i: int| 0 <= i < baseline.len() && baseline[i] == 0;
            assert(baseline.contains(baseline[i]));
        }
    }
    assert(nonzero(candidate) <==> !candidate.contains(0)) by {
        if !nonzero(candidate) {
            let i = choose|i: int| 0 <= i < candidate.len() && candidate[i] == 0;
            assert(candidate.contains(candidate[i]));
        }
    }
}

} // verus!
