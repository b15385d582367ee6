//! The programs that the experiments compile and measure.

use vstd::prelude::*;

use crate::text::{decimal, decimal_text, text2, text4};

verus! {

/// How many rounds an experiment program computes.
pub const ROUNDS: u64 = 40_000_000;

/// Where the program with a build script and a macro starts.
pub const UNITS_SEED: u64 = 0x5eed;

/// Multiplication modulo two to the sixty-fourth.
pub open spec fn times(left: u64, right: u64) -> u64 {
    ((left as nat * right as nat) % 0x1_0000_0000_0000_0000) as u64
}

/// Addition modulo two to the sixty-fourth.
pub open spec fn plus(left: u64, right: u64) -> u64 {
    ((left as nat + right as nat) % 0x1_0000_0000_0000_0000) as u64
}

/// A value folded with its own upper bits.
pub open spec fn folded(value: u64, distance: u64) -> u64 {
    value ^ (value >> distance)
}

/// The mixture of a seed: two multiplications, each followed by a fold.
pub open spec fn mixture(seed: u64) -> u64 {
    folded(
        times(
            folded(times(seed ^ 0x9e37_79b9_7f4a_7c15, 0xbf58_476d_1ce4_e5b9), 27),
            0x94d0_49bb_1331_11eb,
        ),
        31,
    )
}

/// Mixes the bits of a seed.
pub fn mix(seed: u64) -> (mixed: u64)
    ensures
        mixed == mixture(seed),
{
    let mut value: u64 = seed ^ 0x9e37_79b9_7f4a_7c15;
    value = value.wrapping_mul(0xbf58_476d_1ce4_e5b9);
    value = value ^ (value >> 27u64);
    value = value.wrapping_mul(0x94d0_49bb_1331_11eb);
    value ^ (value >> 31u64)
}

/// What the rounds from zero up to `rounds` accumulate.
pub open spec fn accumulated(start: u64, rounds: nat) -> u64
    decreases rounds,
{
    if rounds == 0 {
        start
    } else {
        let before = accumulated(start, (rounds - 1) as nat);
        plus(before, mixture((rounds - 1) as u64 ^ before))
    }
}

/// Accumulates the mixtures of all rounds.
pub fn accumulate(start: u64, rounds: u64) -> (accumulator: u64)
    ensures
        accumulator == accumulated(start, rounds as nat),
{
    let mut accumulator: u64 = start;
    let mut round: u64 = 0;
    while round < rounds
        invariant
            round <= rounds,
            accumulator == accumulated(start, round as nat),
        decreases rounds - round,
    {
        let mixed = mix(round ^ accumulator);
        accumulator = accumulator.wrapping_add(mixed);
        round = round + 1;
    }
    accumulator
}

/// The line that the program with a build script and a macro prints.
pub fn units_report(accumulator: u64) -> (line: String)
    ensures
        line@ == "units accumulator="@ + decimal_text(accumulator as nat),
{
    text2("units accumulator=", decimal(accumulator).as_str())
}

/// The line that the program prints which cannot be compiled without the sentinel.
pub fn strict_report(accumulator: u64) -> (line: String)
    ensures
        line@ == "strict accumulator="@ + decimal_text(accumulator as nat),
{
    text2("strict accumulator=", decimal(accumulator).as_str())
}

/// The line that the program prints which tells whether the sentinel reached its compilation.
pub fn sentinel_report(sentinel: bool, accumulator: u64) -> (line: String)
    ensures
        line@ == "sentinel="@ + (if sentinel {
            "present"@
        } else {
            "absent"@
        }) + " accumulator="@ + decimal_text(accumulator as nat),
{
    let state = if sentinel {
        "present"
    } else {
        "absent"
    };
    text4("sentinel=", state, " accumulator=", decimal(accumulator).as_str())
}

/// The function whose profile is collected.
pub fn profiled_function(value: u64) -> (result: u64)
    ensures
        result == plus(times(value, 3), 1),
{
    value.wrapping_mul(3).wrapping_add(1)
}

/// The function that no profile mentions.
pub fn missing_profile_function(value: u64) -> (result: u64)
    ensures
        result == plus(times(value, 5), 2),
{
    value.wrapping_mul(5).wrapping_add(2)
}

/// What the optimized program prints.
pub fn optimized_result() -> (result: u64)
    ensures
        result == 161,
{
    profiled_function(41).wrapping_add(missing_profile_function(7))
}

} // verus!
