//! The synthetic control of the benchmark corpus.

use vstd::prelude::*;
use vstd::string::*;

use crate::fixtures::{plus, times};
use crate::json::{hex_digits, push_hex_digits};
use crate::text::{characters, digits_value, is_digit, same_text, texts};

verus! {

/// A value whose bits are rotated towards the upper end.
pub open spec fn rotated_left(value: u64, distance: u64) -> u64 {
    (value << distance) | (value >> ((64 - distance) as u64))
}

/// A value whose bits are rotated towards the lower end.
pub open spec fn rotated_right(value: u64, distance: u64) -> u64 {
    (value >> distance) | (value << ((64 - distance) as u64))
}

/// One round of the mixing operation.
pub open spec fn mix_round(state: u64, index: u64) -> u64 {
    times(rotated_left(state ^ times(index, 0x9e37_79b9_7f4a_7c15), 17), 0xbf58_476d_1ce4_e5b9)
}

/// One round of the rotating operation.
pub open spec fn rotate_round(state: u64, index: u64) -> u64 {
    rotated_right(plus(state, index ^ 0xa409_3822_299f_31d0), (index % 63 + 1) as u64)
}

/// The state after so many rounds of mixing.
pub open spec fn mix_state(iterations: nat) -> u64
    decreases iterations,
{
    if iterations == 0 {
        0x243f_6a88_85a3_08d3
    } else {
        mix_round(mix_state((iterations - 1) as nat), (iterations - 1) as u64)
    }
}

/// The state after so many rounds of rotating.
pub open spec fn rotate_state(iterations: nat) -> u64
    decreases iterations,
{
    if iterations == 0 {
        0x1319_8a2e_0370_7344
    } else {
        rotate_round(rotate_state((iterations - 1) as nat), (iterations - 1) as u64)
    }
}

/// Runs the mixing operation.
pub fn mix(iterations: u64) -> (state: u64)
    ensures
        state == mix_state(iterations as nat),
{
    let mut state: u64 = 0x243f_6a88_85a3_08d3;
    let mut index: u64 = 0;
    while index < iterations
        invariant
            index <= iterations,
            state == mix_state(index as nat),
        decreases iterations - index,
    {
        let mixed: u64 = state ^ index.wrapping_mul(0x9e37_79b9_7f4a_7c15);
        let turned: u64 = (mixed << 17u64) | (mixed >> 47u64);
        state = turned.wrapping_mul(0xbf58_476d_1ce4_e5b9);
        index = index + 1;
    }
    state
}

/// Runs the rotating operation.
pub fn rotate(iterations: u64) -> (state: u64)
    ensures
        state == rotate_state(iterations as nat),
{
    let mut state: u64 = 0x1319_8a2e_0370_7344;
    let mut index: u64 = 0;
    while index < iterations
        invariant
            index <= iterations,
            state == rotate_state(index as nat),
        decreases iterations - index,
    {
        let sum: u64 = state.wrapping_add(index ^ 0xa409_3822_299f_31d0);
        let distance: u64 = index % 63 + 1;
        let back: u64 = 64 - distance;
        state = (sum >> distance) | (sum << back);
        index = index + 1;
    }
    state
}

/// The digits of a number that may have a plus sign before it.
pub open spec fn unsigned_digits(text: Seq<char>) -> Seq<char> {
    if text.len() > 1 && text[0] == '+' {
        text.skip(1)
    } else {
        text
    }
}

/// The number that a text denotes: one or more digits, with a value that fits.
pub open spec fn parsed_count(text: Seq<char>) -> Option<u64> {
    let digits = unsigned_digits(text);
    if digits.len() > 0 && (forall|i: int| 0 <= i < digits.len() ==> is_digit(#[trigger] digits[i]))
        && digits_value(digits) <= u64::MAX {
        Some(digits_value(digits) as u64)
    } else {
        None
    }
}

proof fn lemma_value_grows(digits: Seq<char>, count: int)
    requires
        0 <= count <= digits.len(),
        forall|i: int| 0 <= i < digits.len() ==> is_digit(#[trigger] digits[i]),
    ensures
        digits_value(digits.take(count)) <= digits_value(digits),
    decreases digits.len() - count,
{
    if count < digits.len() {
        lemma_value_grows(digits, count + 1);
        assert(digits.take(count + 1).drop_last() =~= digits.take(count));
        assert(is_digit(digits[count]));
    } else {
        assert(digits.take(count) =~= digits);
    }
}

/// Reads an iteration count.
pub fn parse_count(text: &str) -> (count: Option<u64>)
    ensures
        count == parsed_count(text@),
{
    let letters = characters(text);
    let total: usize = letters.len();
    let mut index: usize = 0;
    if total > 1 {
        if letters[0] == '+' {
            index = 1;
        }
    }
    if index == total {
        return None;
    }
    let start: usize = index;
    let ghost digits = unsigned_digits(text@);
    assert(digits =~= text@.skip(start as int));
    let mut value: u64 = 0;
    assert(digits.take(0) =~= Seq::empty());
    while index < total
        invariant
            start <= index <= total == letters@.len(),
            start < total,
            letters@ == text@,
            digits == unsigned_digits(text@),
            digits == text@.skip(start as int),
            forall|i: int| 0 <= i < index - start ==> is_digit(#[trigger] digits[i]),
            value == digits_value(digits.take(index - start)),
        decreases total - index,
    {
        let letter = letters[index];
        let ghost place = index - start;
        assert(digits[place] == letter);
        if !(letter >= '0' && letter <= '9') {
            assert(!is_digit(digits[place]));
            return None;
        }
        let code: u32 = letter as u32;
        let step: u32 = code - 48;
        proof {
            assert(digits.take(place + 1).drop_last() =~= digits.take(place));
            assert(digits.take(place + 1).last() == letter);
        }
        let next: u128 = value as u128 * 10 + step as u128;
        if next > 0xffff_ffff_ffff_ffff {
            proof {
                if forall|i: int| 0 <= i < digits.len() ==> is_digit(#[trigger] digits[i]) {
                    lemma_value_grows(digits, place + 1);
                }
            }
            return None;
        }
        value = next as u64;
        index = index + 1;
    }
    assert(digits.take(index - start) =~= digits);
    Some(value)
}

/// What the program prints, or why it refuses its arguments.
pub open spec fn control_output(arguments: Seq<Seq<char>>) -> Result<Seq<char>, Seq<char>> {
    if arguments.len() == 0 {
        Err("missing operation"@)
    } else if arguments.len() == 1 || parsed_count(arguments[1]) is None {
        Err("missing or invalid iteration count"@)
    } else if arguments.len() > 2 {
        Err("unexpected argument"@)
    } else if arguments[0] == "mix"@ {
        Ok(hex_digits(mix_state(parsed_count(arguments[1])->0 as nat) as nat, 16))
    } else if arguments[0] == "rotate"@ {
        Ok(hex_digits(rotate_state(parsed_count(arguments[1])->0 as nat) as nat, 16))
    } else {
        Err("unknown operation"@)
    }
}

/// Runs the operation that the arguments ask for.
pub fn run_control(arguments: &Vec<String>) -> (output: Result<String, &'static str>)
    ensures
        match output {
            Ok(text) => control_output(texts(arguments@)) == Ok::<Seq<char>, Seq<char>>(text@),
            Err(message) => control_output(texts(arguments@)) == Err::<Seq<char>, Seq<char>>(
                message@,
            ),
        },
{
    let ghost views = texts(arguments@);
    if arguments.len() == 0 {
        return Err("missing operation");
    }
    assert(views[0] == arguments@[0]@);
    if arguments.len() == 1 {
        return Err("missing or invalid iteration count");
    }
    assert(views[1] == arguments@[1]@);
    let iterations: u64 = match parse_count(arguments[1].as_str()) {
        Some(count) => count,
        None => return Err("missing or invalid iteration count"),
    };
    if arguments.len() > 2 {
        return Err("unexpected argument");
    }
    let result: u64 = if same_text(arguments[0].as_str(), "mix") {
        mix(iterations)
    } else if same_text(arguments[0].as_str(), "rotate") {
        rotate(iterations)
    } else {
        return Err("unknown operation");
    };
    let mut text = String::new();
    push_hex_digits(&mut text, result, 16);
    assert(text@ =~= hex_digits(result as nat, 16));
    Ok(text)
}

} // verus!
