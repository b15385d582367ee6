//! Command-line decisions.

use vstd::prelude::*;
use vstd::string::*;
use vstd::utf8::*;

use crate::text::{byte_strings, same_bytes};

verus! {

pub const DEFAULT_TIMEOUT_SECONDS: u64 = 300;

/// The bits of the double `100.0`, which no minimum improvement may reach.
pub const HUNDRED_PERCENT: u64 = 0x4059_0000_0000_0000;

/// The bits of the double `-0.0`, which counts as zero.
pub const NEGATIVE_ZERO: u64 = 0x8000_0000_0000_0000;

/// What `optimize` was asked to do. The minimum improvement is given by the bits of a double.
#[derive(Debug)]
pub struct OptimizeArgs {
    pub manifest_path: Vec<u8>,
    pub package: Option<String>,
    pub binary: Option<String>,
    pub target: Option<String>,
    pub minimum_improvement: u64,
    pub timeout: u64,
    pub allow_dirty: bool,
    pub json: bool,
    pub workload: Vec<Vec<u8>>,
}

/// What a command line came to.
#[derive(Debug)]
pub enum ParseOutcome {
    Optimize(OptimizeArgs),
    /// The command line was refused.
    Refused,
    MissingWorkload,
}

/// Arguments without the name of the subcommand, which Cargo passes on.
pub open spec fn without_subcommand(arguments: Seq<Seq<u8>>) -> Seq<Seq<u8>> {
    if arguments.len() > 1 && arguments[1] == encode_utf8("temper"@) {
        arguments.remove(1)
    } else {
        arguments
    }
}

/// Leaves out the name of the subcommand, which Cargo passes on.
pub fn strip_subcommand(arguments: Vec<Vec<u8>>) -> (stripped: Vec<Vec<u8>>)
    ensures
        byte_strings(stripped@) == without_subcommand(byte_strings(arguments@)),
{
    let mut stripped = arguments;
    assert(byte_strings(stripped@).len() == stripped@.len());
    if stripped.len() > 1 {
        assert(byte_strings(stripped@)[1] == stripped@[1]@);
        if same_bytes(stripped[1].as_slice(), "temper".as_bytes()) {
            let ghost before = stripped@;
            let _removed = stripped.remove(1);
            assert(byte_strings(stripped@) =~= byte_strings(before).remove(1));
        }
    }
    stripped
}

/// Decides what a command line came to, once it was parsed or refused.
pub fn parse_outcome(parsed: Option<OptimizeArgs>) -> (outcome: ParseOutcome)
    ensures
        match parsed {
            None => outcome is Refused,
            Some(arguments) => if arguments.workload@.len() == 0 {
                outcome is MissingWorkload
            } else {
                outcome == ParseOutcome::Optimize(arguments)
            },
        },
{
    match parsed {
        None => ParseOutcome::Refused,
        Some(arguments) => if arguments.workload.len() == 0 {
            ParseOutcome::MissingWorkload
        } else {
            ParseOutcome::Optimize(arguments)
        },
    }
}

/// Whether the bits of a double stand for a percentage from zero up to, but not, one hundred.
/// Doubles that are not negative are ordered as their bits.
pub open spec fn is_percentage(bits: u64) -> bool {
    bits < HUNDRED_PERCENT || bits == NEGATIVE_ZERO
}

/// Checks a minimum improvement, given by the bits of the double that its text stands for; there
/// are none where the text is no number.
pub fn parse_minimum_improvement(bits: Option<u64>) -> (checked: Result<u64, String>)
    ensures
        match checked {
            Ok(value) => bits == Some(value) && is_percentage(value),
            Err(message) => match bits {
                None => message@ == "minimum improvement must be a number"@,
                Some(value) => !is_percentage(value) && message@
                    == "minimum improvement must be finite and between 0 (inclusive) and 100 (exclusive)"@,
            },
        },
{
    match bits {
        None => Err("minimum improvement must be a number".to_owned()),
        Some(value) => if value < HUNDRED_PERCENT || value == NEGATIVE_ZERO {
            Ok(value)
        } else {
            Err(
                "minimum improvement must be finite and between 0 (inclusive) and 100 (exclusive)".to_owned(),
            )
        },
    }
}

/// Only the word `temper` right behind the program is left out; every other word stays, in order.
pub proof fn law_only_the_subcommand_is_left_out(program: Seq<u8>, rest: Seq<Seq<u8>>)
    ensures
        without_subcommand(seq![program, encode_utf8("temper"@)] + rest) == seq![program] + rest,
        rest.len() == 0 || rest[0] != encode_utf8("temper"@) ==> without_subcommand(
            seq![program] + rest,
        ) == seq![program] + rest,
{
    let whole = seq![program, encode_utf8("temper"@)] + rest;
    assert(whole[1] == encode_utf8("temper"@));
    assert(whole.remove(1) =~= seq![program] + rest);
    if rest.len() > 0 {
        assert((seq![program] + rest)[1] == rest[0]);
    }
}

/// The doubles from zero up to one hundred, and the negative zero, are percentages: one hundred
/// itself, every other negative number, infinity and what is no number are not.
pub proof fn law_percentages_end_below_one_hundred(bits: u64)
    ensures
        is_percentage(bits) <==> bits < 0x4059_0000_0000_0000 || bits == 0x8000_0000_0000_0000,
{
}

} // verus!
