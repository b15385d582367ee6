//! The child side of the private protocol: context, evidence record, and decision.

use vstd::prelude::*;
use vstd::slice::slice_to_vec;
use vstd::string::*;
use vstd::utf8::*;

use crate::classify::{
    all_normalized, argument_digest, carries_control, classified, classify, compiles_for,
    law_ordinary_compilations_are_not_refused, normalize_arguments, optional_label, rejection_of,
    replaced, short_digest, short_digest_of, Classification, ClassificationView, InvocationClass,
};
use crate::hash::{
    big_endian, byte_range, frame, framed_digest, law_frame_is_unambiguous,
    lemma_big_endian_injective, push_big_endian, sha256_text,
};
use crate::interposition::{
    flags_of, identifiers_of, law_controls_are_read_as_written, parsed_injection, profile_of, stage_label, stage_of_label,
    variable_pairs, Injection, InjectionView, ShimStage, Variable, CAPTURE_DIRECTORY_VARIABLE,
    DIAGNOSTIC_LIMIT, FIELD_LIMIT, INJECTION_VARIABLE, NAME_ATTEMPT_LIMIT, NORMALIZATION_VERSION,
    PROTOCOL, PROTOCOL_FAILURE_PREFIX, PROTOCOL_FAILURE_REASON, PROTOCOL_VARIABLE,
    REAL_RUSTC_VARIABLE, RECORD_BYTE_LIMIT, RUN_ROOT_VARIABLE, STAGE_VARIABLE, SUPPORTED_HOST,
    TARGET_DIRECTORY_VARIABLE, TARGET_VARIABLE,
};
use crate::paths::{is_absolute, is_absolute_path, lies_within, parts, same_path, starts_with};
use crate::text::{
    bounded_prefix, bounded_text, byte_strings, copy_byte_strings, copy_text, lemma_ascii_bytes,
    optional_bytes, optional_text, same_bytes, same_text, text2, text3, text4, texts,
    utf8_text,
};
use crate::tools::{absolute_program, resolved_program, ProgramProbe};

verus! {

/// One bounded evidence record. It never contains unrestricted raw argv.
#[derive(Debug)]
pub struct CaptureRecord {
    pub protocol: String,
    pub normalization: u32,
    pub record_id: String,
    pub stage: ShimStage,
    pub class: InvocationClass,
    pub exact_target: bool,
    pub emit: bool,
    pub print: bool,
    pub crate_name: Option<String>,
    pub crate_types: Vec<String>,
    pub metadata: Option<String>,
    pub extra_filename: Option<String>,
    pub argument_count: usize,
    pub pre_digest: String,
    pub post_digest: String,
    /// Ordered digest of the pre-injection argv after stage-root normalization.
    pub normalized_digest: String,
    /// Per-argument normalized digests. Only a target compilation carries them, because only
    /// target compilations are compared across stages.
    pub argument_digests: Vec<String>,
    pub injected_flags: Vec<String>,
    pub rejection: Option<String>,
}

impl Clone for CaptureRecord {
    fn clone(&self) -> (copy: CaptureRecord)
        ensures
            same_record(copy, *self),
    {
        CaptureRecord {
            protocol: self.protocol.clone(),
            normalization: self.normalization,
            record_id: self.record_id.clone(),
            stage: self.stage,
            class: self.class,
            exact_target: self.exact_target,
            emit: self.emit,
            print: self.print,
            crate_name: copy_text(&self.crate_name),
            crate_types: self.crate_types.clone(),
            metadata: copy_text(&self.metadata),
            extra_filename: copy_text(&self.extra_filename),
            argument_count: self.argument_count,
            pre_digest: self.pre_digest.clone(),
            post_digest: self.post_digest.clone(),
            normalized_digest: self.normalized_digest.clone(),
            argument_digests: self.argument_digests.clone(),
            injected_flags: self.injected_flags.clone(),
            rejection: copy_text(&self.rejection),
        }
    }
}

/// What a record says, as sequences.
pub struct CaptureRecordView {
    pub protocol: Seq<char>,
    pub normalization: u32,
    pub record_id: Seq<char>,
    pub stage: ShimStage,
    pub class: InvocationClass,
    pub exact_target: bool,
    pub emit: bool,
    pub print: bool,
    pub crate_name: Option<Seq<char>>,
    pub crate_types: Seq<Seq<char>>,
    pub metadata: Option<Seq<char>>,
    pub extra_filename: Option<Seq<char>>,
    pub argument_count: usize,
    pub pre_digest: Seq<char>,
    pub post_digest: Seq<char>,
    pub normalized_digest: Seq<char>,
    pub argument_digests: Seq<Seq<char>>,
    pub injected_flags: Seq<Seq<char>>,
    pub rejection: Option<Seq<char>>,
}

impl View for CaptureRecord {
    type V = CaptureRecordView;

    open spec fn view(&self) -> CaptureRecordView {
        CaptureRecordView {
            protocol: self.protocol@,
            normalization: self.normalization,
            record_id: self.record_id@,
            stage: self.stage,
            class: self.class,
            exact_target: self.exact_target,
            emit: self.emit,
            print: self.print,
            crate_name: optional_text(self.crate_name),
            crate_types: texts(self.crate_types@),
            metadata: optional_text(self.metadata),
            extra_filename: optional_text(self.extra_filename),
            argument_count: self.argument_count,
            pre_digest: self.pre_digest@,
            post_digest: self.post_digest@,
            normalized_digest: self.normalized_digest@,
            argument_digests: texts(self.argument_digests@),
            injected_flags: texts(self.injected_flags@),
            rejection: optional_text(self.rejection),
        }
    }
}

/// Whether two records say the same.
pub open spec fn same_record(left: CaptureRecord, right: CaptureRecord) -> bool {
    left@ == right@
}

/// Whether two records say the same but for their identity.
pub open spec fn same_evidence(left: CaptureRecord, right: CaptureRecord) -> bool {
    left@ == (CaptureRecordView { record_id: left.record_id@, ..right@ })
}

/// What resolving one directory variable gave.
#[derive(Debug)]
pub struct DirectoryProbe {
    /// The canonical path, or why there is none.
    pub canonical: Result<Vec<u8>, String>,
    /// Whether the canonical path is an existing directory.
    pub directory: bool,
}

/// What the file system says of the paths that the protocol names.
#[derive(Debug)]
pub struct ShimProbes {
    pub run_root: DirectoryProbe,
    pub capture_directory: DirectoryProbe,
    pub target_directory: DirectoryProbe,
    pub real_rustc: ProgramProbe,
}

/// The validated protocol of one shim process.
#[derive(Debug)]
pub struct ShimContext {
    pub stage: ShimStage,
    pub target: String,
    pub real_rustc: Vec<u8>,
    pub target_directory: Vec<u8>,
    pub capture_directory: Vec<u8>,
    pub injection: Injection,
}

/// The validated protocol, as sequences.
pub struct ShimContextView {
    pub stage: ShimStage,
    pub target: Seq<char>,
    pub real_rustc: Seq<u8>,
    pub target_directory: Seq<u8>,
    pub capture_directory: Seq<u8>,
    pub injection: InjectionView,
}

impl View for ShimContext {
    type V = ShimContextView;

    open spec fn view(&self) -> ShimContextView {
        ShimContextView {
            stage: self.stage,
            target: self.target@,
            real_rustc: self.real_rustc@,
            target_directory: self.target_directory@,
            capture_directory: self.capture_directory@,
            injection: self.injection@,
        }
    }
}

/// The names of the private protocol values, in their fixed order.
pub open spec fn shim_variable_names() -> Seq<Seq<char>> {
    seq![
        PROTOCOL_VARIABLE@,
        RUN_ROOT_VARIABLE@,
        REAL_RUSTC_VARIABLE@,
        STAGE_VARIABLE@,
        TARGET_VARIABLE@,
        TARGET_DIRECTORY_VARIABLE@,
        CAPTURE_DIRECTORY_VARIABLE@,
        INJECTION_VARIABLE@,
    ]
}

/// The names of the private protocol values, in their fixed order.
pub fn shim_variables() -> (names: Vec<&'static str>)
    ensures
        names@.map_values(|name: &'static str| name@) == shim_variable_names(),
{
    let mut names: Vec<&'static str> = Vec::new();
    names.push(PROTOCOL_VARIABLE);
    names.push(RUN_ROOT_VARIABLE);
    names.push(REAL_RUSTC_VARIABLE);
    names.push(STAGE_VARIABLE);
    names.push(TARGET_VARIABLE);
    names.push(TARGET_DIRECTORY_VARIABLE);
    names.push(CAPTURE_DIRECTORY_VARIABLE);
    names.push(INJECTION_VARIABLE);
    assert(names@.map_values(|name: &'static str| name@) =~= shim_variable_names());
    names
}

/// The value of the first variable with this name, at or after `from`.
pub open spec fn value_from(
    variables: Seq<(Seq<u8>, Seq<u8>)>,
    name: Seq<u8>,
    from: int,
) -> Option<Seq<u8>>
    decreases variables.len() - from,
{
    if from < 0 || from >= variables.len() {
        None
    } else if variables[from].0 == name {
        Some(variables[from].1)
    } else {
        value_from(variables, name, from + 1)
    }
}

/// The value of the variable with this name.
pub open spec fn value_of(variables: Seq<(Seq<u8>, Seq<u8>)>, name: Seq<char>) -> Option<Seq<u8>> {
    value_from(variables, encode_utf8(name), 0)
}

/// Whether a name is given more than once.
pub open spec fn given_twice(variables: Seq<(Seq<u8>, Seq<u8>)>, name: Seq<char>) -> bool {
    exists|i: int, j: int|
        0 <= i < j < variables.len() && #[trigger] variables[i].0 == encode_utf8(name)
            && #[trigger] variables[j].0 == encode_utf8(name)
}

/// The first of the names, at or after `from`, that is given more than once.
pub open spec fn duplicate_name(
    variables: Seq<(Seq<u8>, Seq<u8>)>,
    names: Seq<Seq<char>>,
    from: int,
) -> Option<Seq<char>>
    decreases names.len() - from,
{
    if from < 0 || from >= names.len() {
        None
    } else if given_twice(variables, names[from]) {
        Some(names[from])
    } else {
        duplicate_name(variables, names, from + 1)
    }
}

/// A protocol value that must be present and not empty.
pub open spec fn required(variables: Seq<(Seq<u8>, Seq<u8>)>, name: Seq<char>) -> Result<
    Seq<u8>,
    Seq<char>,
> {
    match value_of(variables, name) {
        Some(value) => if value.len() > 0 {
            Ok(value)
        } else {
            Err("missing private protocol value "@ + name)
        },
        None => Err("missing private protocol value "@ + name),
    }
}

/// A protocol value that must be text.
pub open spec fn required_text(variables: Seq<(Seq<u8>, Seq<u8>)>, name: Seq<char>) -> Result<
    Seq<char>,
    Seq<char>,
> {
    match required(variables, name) {
        Err(message) => Err(message),
        Ok(value) => if valid_utf8(value) {
            Ok(decode_utf8(value))
        } else {
            Err(name + " must be valid UTF-8"@)
        },
    }
}

/// A protocol value that must name an existing directory.
pub open spec fn required_directory(
    variables: Seq<(Seq<u8>, Seq<u8>)>,
    name: Seq<char>,
    probe: DirectoryProbe,
) -> Result<Seq<u8>, Seq<char>> {
    match required(variables, name) {
        Err(message) => Err(message),
        Ok(value) => if !is_absolute_path(value) {
            Err(name + " must be an absolute path"@)
        } else {
            match probe.canonical {
                Err(error) => Err(name + " is unavailable: "@ + error@),
                Ok(path) => if probe.directory {
                    Ok(path@)
                } else {
                    Err(name + " must be an existing directory"@)
                },
            }
        },
    }
}

/// The compiler that the protocol names.
pub open spec fn required_compiler(
    variables: Seq<(Seq<u8>, Seq<u8>)>,
    probe: ProgramProbe,
) -> Result<Seq<u8>, Seq<char>> {
    match required(variables, REAL_RUSTC_VARIABLE@) {
        Err(message) => Err(message),
        Ok(value) => if !is_absolute_path(value) {
            Err(REAL_RUSTC_VARIABLE@ + " must be an absolute path"@)
        } else {
            match resolved_program(value, probe) {
                Err(error) => Err(REAL_RUSTC_VARIABLE@ + " is unavailable: "@ + error),
                Ok(resolved) => if parts(resolved) == parts(value) {
                    Ok(value)
                } else {
                    Err(REAL_RUSTC_VARIABLE@ + " is not a canonical compiler path"@)
                },
            }
        },
    }
}

/// The stage that the protocol names.
pub open spec fn required_stage(variables: Seq<(Seq<u8>, Seq<u8>)>) -> Result<
    ShimStage,
    Seq<char>,
> {
    match required_text(variables, STAGE_VARIABLE@) {
        Err(message) => Err(message),
        Ok(label) => match stage_of_label(label) {
            Some(stage) => Ok(stage),
            None => Err(STAGE_VARIABLE@ + " is not a supported interposition stage"@),
        },
    }
}

/// The target that the protocol names.
pub open spec fn required_target(variables: Seq<(Seq<u8>, Seq<u8>)>) -> Result<
    Seq<char>,
    Seq<char>,
> {
    match required_text(variables, TARGET_VARIABLE@) {
        Err(message) => Err(message),
        Ok(target) => if target == SUPPORTED_HOST@ {
            Ok(target)
        } else {
            Err(TARGET_VARIABLE@ + " is not the supported target"@)
        },
    }
}

/// The controls that the protocol names; their profile must stay inside the run.
pub open spec fn required_injection(
    variables: Seq<(Seq<u8>, Seq<u8>)>,
    run_root: Seq<u8>,
) -> Result<InjectionView, Seq<char>> {
    match required(variables, INJECTION_VARIABLE@) {
        Err(message) => Err(message),
        Ok(value) => match parsed_injection(value) {
            Err(message) => Err(message),
            Ok(injection) => if profile_of(injection) is Some && !lies_within(
                profile_of(injection)->0,
                run_root,
            ) {
                Err(INJECTION_VARIABLE@ + " requires a profile path inside the current run"@)
            } else {
                Ok(injection)
            },
        },
    }
}

/// The three directories of the protocol: run root, capture and target.
pub open spec fn required_directories(
    variables: Seq<(Seq<u8>, Seq<u8>)>,
    probes: ShimProbes,
) -> Result<(Seq<u8>, Seq<u8>, Seq<u8>), Seq<char>> {
    match required_directory(variables, RUN_ROOT_VARIABLE@, probes.run_root) {
        Err(message) => Err(message),
        Ok(run_root) => match required_directory(
            variables,
            CAPTURE_DIRECTORY_VARIABLE@,
            probes.capture_directory,
        ) {
            Err(message) => Err(message),
            Ok(capture) => match required_directory(
                variables,
                TARGET_DIRECTORY_VARIABLE@,
                probes.target_directory,
            ) {
                Err(message) => Err(message),
                Ok(target) => if !lies_within(capture, run_root) {
                    Err(CAPTURE_DIRECTORY_VARIABLE@ + " escaped the canonical run root"@)
                } else if !lies_within(target, run_root) {
                    Err(TARGET_DIRECTORY_VARIABLE@ + " escaped the canonical run root"@)
                } else {
                    Ok((run_root, capture, target))
                },
            },
        },
    }
}

/// Whether the protocol itself is the supported one.
pub open spec fn protocol_refusal(variables: Seq<(Seq<u8>, Seq<u8>)>) -> Option<Seq<char>> {
    match duplicate_name(variables, shim_variable_names(), 0) {
        Some(name) => Some("duplicate private protocol value "@ + name),
        None => match required_text(variables, PROTOCOL_VARIABLE@) {
            Err(message) => Some(message),
            Ok(protocol) => if protocol == PROTOCOL@ {
                None
            } else {
                Some(
                    "unsupported private protocol version "@ + bounded_text(
                        protocol,
                        FIELD_LIMIT as nat,
                    ),
                )
            },
        },
    }
}

/// The context that the environment describes, or the first thing wrong with it.
pub open spec fn context_outcome(
    variables: Seq<(Seq<u8>, Seq<u8>)>,
    probes: ShimProbes,
) -> Result<ShimContextView, Seq<char>> {
    match protocol_refusal(variables) {
        Some(message) => Err(message),
        None => match required_directories(variables, probes) {
            Err(message) => Err(message),
            Ok((run_root, capture, target_directory)) => match required_stage(variables) {
                Err(message) => Err(message),
                Ok(stage) => match required_target(variables) {
                    Err(message) => Err(message),
                    Ok(target) => match required_compiler(variables, probes.real_rustc) {
                        Err(message) => Err(message),
                        Ok(real_rustc) => match required_injection(variables, run_root) {
                            Err(message) => Err(message),
                            Ok(injection) => Ok(
                                ShimContextView {
                                    stage,
                                    target,
                                    real_rustc,
                                    target_directory,
                                    capture_directory: capture,
                                    injection,
                                },
                            ),
                        },
                    },
                },
            },
        },
    }
}

/// Finds the value of the variable with this name.
pub fn find_value<'a>(variables: &'a Vec<Variable>, name: &str) -> (value: Option<&'a Vec<u8>>)
    ensures
        match value {
            Some(found) => value_of(variable_pairs(variables@), name@) == Some(found@),
            None => value_of(variable_pairs(variables@), name@) is None,
        },
{
    let ghost pairs = variable_pairs(variables@);
    let wanted = name.as_bytes();
    let mut index: usize = 0;
    while index < variables.len()
        invariant
            index <= variables@.len(),
            pairs == variable_pairs(variables@),
            wanted@ == encode_utf8(name@),
            value_of(pairs, name@) == value_from(pairs, wanted@, index as int),
        decreases variables@.len() - index,
    {
        assert(pairs[index as int] == (
            variables@[index as int].name@,
            variables@[index as int].value@,
        ));
        if same_bytes(variables[index].name.as_slice(), wanted) {
            return Some(&variables[index].value);
        }
        index = index + 1;
    }
    None
}

fn occurs_twice(variables: &Vec<Variable>, name: &str) -> (twice: bool)
    ensures
        twice == given_twice(variable_pairs(variables@), name@),
{
    let ghost pairs = variable_pairs(variables@);
    let wanted = name.as_bytes();
    let mut seen: bool = false;
    let mut index: usize = 0;
    while index < variables.len()
        invariant
            index <= variables@.len(),
            pairs == variable_pairs(variables@),
            wanted@ == encode_utf8(name@),
            seen == exists|i: int| 0 <= i < index && #[trigger] pairs[i].0 == wanted@,
            forall|i: int, j: int|
                0 <= i < j < index ==> #[trigger] pairs[i].0 != wanted@ || #[trigger] pairs[j].0
                    != wanted@,
        decreases variables@.len() - index,
    {
        assert(pairs[index as int].0 == variables@[index as int].name@);
        if same_bytes(variables[index].name.as_slice(), wanted) {
            if seen {
                return true;
            }
            seen = true;
        }
        index = index + 1;
    }
    false
}

/// Refuses protocol values that are given more than once.
pub fn reject_duplicate_values(variables: &Vec<Variable>) -> (checked: Result<(), String>)
    ensures
        match checked {
            Ok(_) => duplicate_name(variable_pairs(variables@), shim_variable_names(), 0) is None,
            Err(message) => {
                let found = duplicate_name(variable_pairs(variables@), shim_variable_names(), 0);
                found is Some && message@ == "duplicate private protocol value "@ + found->0
            },
        },
{
    let names = shim_variables();
    let ghost pairs = variable_pairs(variables@);
    let ghost labels = shim_variable_names();
    let mut index: usize = 0;
    while index < names.len()
        invariant
            index <= names@.len(),
            pairs == variable_pairs(variables@),
            labels == shim_variable_names(),
            names@.map_values(|name: &'static str| name@) == labels,
            duplicate_name(pairs, labels, 0) == duplicate_name(pairs, labels, index as int),
        decreases names@.len() - index,
    {
        let name: &'static str = names[index];
        assert(labels[index as int] == name@);
        if occurs_twice(variables, name) {
            return Err(text2("duplicate private protocol value ", name));
        }
        index = index + 1;
    }
    assert(labels.len() == names@.len());
    Ok(())
}

fn required_value<'a>(variables: &'a Vec<Variable>, name: &str) -> (value: Result<
    &'a Vec<u8>,
    String,
>)
    ensures
        match value {
            Ok(found) => required(variable_pairs(variables@), name@) == Ok::<Seq<u8>, Seq<char>>(
                found@,
            ),
            Err(message) => required(variable_pairs(variables@), name@) == Err::<
                Seq<u8>,
                Seq<char>,
            >(message@),
        },
{
    match find_value(variables, name) {
        Some(value) => if value.len() > 0 {
            Ok(value)
        } else {
            Err(text2("missing private protocol value ", name))
        },
        None => Err(text2("missing private protocol value ", name)),
    }
}

fn required_string(variables: &Vec<Variable>, name: &str) -> (value: Result<String, String>)
    ensures
        match value {
            Ok(found) => required_text(variable_pairs(variables@), name@) == Ok::<
                Seq<char>,
                Seq<char>,
            >(found@),
            Err(message) => required_text(variable_pairs(variables@), name@) == Err::<
                Seq<char>,
                Seq<char>,
            >(message@),
        },
{
    match required_value(variables, name) {
        Err(message) => Err(message),
        Ok(value) => match utf8_text(value.as_slice()) {
            Some(text) => Ok(text.to_owned()),
            None => Err(text2(name, " must be valid UTF-8")),
        },
    }
}

fn canonical_directory(variables: &Vec<Variable>, name: &str, probe: &DirectoryProbe) -> (path:
    Result<Vec<u8>, String>)
    ensures
        match path {
            Ok(found) => required_directory(variable_pairs(variables@), name@, *probe) == Ok::<
                Seq<u8>,
                Seq<char>,
            >(found@),
            Err(message) => required_directory(variable_pairs(variables@), name@, *probe) == Err::<
                Seq<u8>,
                Seq<char>,
            >(message@),
        },
{
    match required_value(variables, name) {
        Err(message) => Err(message),
        Ok(value) => {
            if !is_absolute(value.as_slice()) {
                return Err(text2(name, " must be an absolute path"));
            }
            match &probe.canonical {
                Err(error) => Err(text3(name, " is unavailable: ", error.as_str())),
                Ok(path) => if probe.directory {
                    Ok(path.clone())
                } else {
                    Err(text2(name, " must be an existing directory"))
                },
            }
        },
    }
}

fn compiler_path(variables: &Vec<Variable>, probe: &ProgramProbe) -> (path: Result<
    Vec<u8>,
    String,
>)
    ensures
        match path {
            Ok(found) => required_compiler(variable_pairs(variables@), *probe) == Ok::<
                Seq<u8>,
                Seq<char>,
            >(found@),
            Err(message) => required_compiler(variable_pairs(variables@), *probe) == Err::<
                Seq<u8>,
                Seq<char>,
            >(message@),
        },
{
    match required_value(variables, REAL_RUSTC_VARIABLE) {
        Err(message) => Err(message),
        Ok(value) => {
            if !is_absolute(value.as_slice()) {
                return Err(text2(REAL_RUSTC_VARIABLE, " must be an absolute path"));
            }
            match absolute_program(value.as_slice(), probe) {
                Err(error) => Err(
                    text3(REAL_RUSTC_VARIABLE, " is unavailable: ", error.as_str()),
                ),
                Ok(resolved) => if same_path(resolved.as_slice(), value.as_slice()) {
                    Ok(value.clone())
                } else {
                    Err(text2(REAL_RUSTC_VARIABLE, " is not a canonical compiler path"))
                },
            }
        },
    }
}

fn injected_controls(variables: &Vec<Variable>, run_root: &[u8]) -> (controls: Result<
    Injection,
    String,
>)
    ensures
        match controls {
            Ok(found) => required_injection(variable_pairs(variables@), run_root@) == Ok::<
                InjectionView,
                Seq<char>,
            >(found@),
            Err(message) => required_injection(variable_pairs(variables@), run_root@) == Err::<
                InjectionView,
                Seq<char>,
            >(message@),
        },
{
    match required_value(variables, INJECTION_VARIABLE) {
        Err(message) => Err(message),
        Ok(value) => match Injection::parse(value.as_slice()) {
            Err(message) => Err(message),
            Ok(injection) => {
                let inside: bool = match injection.profile_path() {
                    Some(path) => starts_with(path.as_slice(), run_root),
                    None => true,
                };
                if inside {
                    Ok(injection)
                } else {
                    Err(
                        text2(
                            INJECTION_VARIABLE,
                            " requires a profile path inside the current run",
                        ),
                    )
                }
            },
        },
    }
}

impl ShimContext {
    /// Reads and validates the private protocol.
    pub fn from_environment(variables: &Vec<Variable>, probes: &ShimProbes) -> (context: Result<
        ShimContext,
        String,
    >)
        ensures
            match context {
                Ok(found) => context_outcome(variable_pairs(variables@), *probes) == Ok::<
                    ShimContextView,
                    Seq<char>,
                >(found@),
                Err(message) => context_outcome(variable_pairs(variables@), *probes) == Err::<
                    ShimContextView,
                    Seq<char>,
                >(message@),
            },
    {
        if let Err(message) = reject_duplicate_values(variables) {
            return Err(message);
        }
        let protocol = match required_string(variables, PROTOCOL_VARIABLE) {
            Ok(value) => value,
            Err(message) => return Err(message),
        };
        if !same_text(protocol.as_str(), PROTOCOL) {
            let shown = bounded_prefix(protocol.as_str(), FIELD_LIMIT);
            return Err(text2("unsupported private protocol version ", shown.as_str()));
        }
        let run_root = match canonical_directory(variables, RUN_ROOT_VARIABLE, &probes.run_root) {
            Ok(path) => path,
            Err(message) => return Err(message),
        };
        let capture_directory = match canonical_directory(
            variables,
            CAPTURE_DIRECTORY_VARIABLE,
            &probes.capture_directory,
        ) {
            Ok(path) => path,
            Err(message) => return Err(message),
        };
        let target_directory = match canonical_directory(
            variables,
            TARGET_DIRECTORY_VARIABLE,
            &probes.target_directory,
        ) {
            Ok(path) => path,
            Err(message) => return Err(message),
        };
        if !starts_with(capture_directory.as_slice(), run_root.as_slice()) {
            return Err(text2(CAPTURE_DIRECTORY_VARIABLE, " escaped the canonical run root"));
        }
        if !starts_with(target_directory.as_slice(), run_root.as_slice()) {
            return Err(text2(TARGET_DIRECTORY_VARIABLE, " escaped the canonical run root"));
        }
        let label = match required_string(variables, STAGE_VARIABLE) {
            Ok(value) => value,
            Err(message) => return Err(message),
        };
        let stage = match ShimStage::parse(label.as_str()) {
            Some(stage) => stage,
            None => return Err(
                text2(STAGE_VARIABLE, " is not a supported interposition stage"),
            ),
        };
        let target = match required_string(variables, TARGET_VARIABLE) {
            Ok(value) => value,
            Err(message) => return Err(message),
        };
        if !same_text(target.as_str(), SUPPORTED_HOST) {
            return Err(text2(TARGET_VARIABLE, " is not the supported target"));
        }
        let real_rustc = match compiler_path(variables, &probes.real_rustc) {
            Ok(path) => path,
            Err(message) => return Err(message),
        };
        let injection = match injected_controls(variables, run_root.as_slice()) {
            Ok(injection) => injection,
            Err(message) => return Err(message),
        };
        Ok(
            ShimContext {
                stage,
                target,
                real_rustc,
                target_directory,
                capture_directory,
                injection,
            },
        )
    }
}

/// Whatever the environment says, a context keeps every directory and profile inside the run.
pub proof fn law_contexts_stay_inside_the_run(
    variables: Seq<(Seq<u8>, Seq<u8>)>,
    probes: ShimProbes,
)
    requires
        context_outcome(variables, probes) is Ok,
    ensures
        ({
            let context = context_outcome(variables, probes)->Ok_0;
            &&& probes.run_root.canonical is Ok
            &&& lies_within(context.capture_directory, probes.run_root.canonical->Ok_0@)
            &&& lies_within(context.target_directory, probes.run_root.canonical->Ok_0@)
            &&& profile_of(context.injection) is Some ==> lies_within(
                profile_of(context.injection)->0,
                probes.run_root.canonical->Ok_0@,
            )
            &&& context.target == SUPPORTED_HOST@
        }),
{
}

/// The directory a protocol-failure marker may be written to: only when the private run root
/// and capture directory are both canonical and nested, so a malformed protocol can never
/// create a file outside the current run.
pub open spec fn failure_directory(
    variables: Seq<(Seq<u8>, Seq<u8>)>,
    run_root: DirectoryProbe,
    capture: DirectoryProbe,
) -> Option<Seq<u8>> {
    match (
        required_directory(variables, RUN_ROOT_VARIABLE@, run_root),
        required_directory(variables, CAPTURE_DIRECTORY_VARIABLE@, capture),
    ) {
        (Ok(root), Ok(directory)) => if lies_within(directory, root) {
            Some(directory)
        } else {
            None
        },
        _ => None,
    }
}

/// Resolves the directory a protocol-failure marker may be written to.
pub fn protocol_failure_directory(
    variables: &Vec<Variable>,
    run_root: &DirectoryProbe,
    capture: &DirectoryProbe,
) -> (directory: Option<Vec<u8>>)
    ensures
        optional_bytes(directory) == failure_directory(
            variable_pairs(variables@),
            *run_root,
            *capture,
        ),
{
    let root = match canonical_directory(variables, RUN_ROOT_VARIABLE, run_root) {
        Ok(path) => path,
        Err(_) => return None,
    };
    let directory = match canonical_directory(variables, CAPTURE_DIRECTORY_VARIABLE, capture) {
        Ok(path) => path,
        Err(_) => return None,
    };
    if starts_with(directory.as_slice(), root.as_slice()) {
        Some(directory)
    } else {
        None
    }
}

/// The identifiers of the controls that a classified invocation receives.
pub open spec fn received_identifiers(
    injection: InjectionView,
    classification: ClassificationView,
    rejection: Option<Seq<char>>,
) -> Seq<Seq<char>> {
    if classification.class == InvocationClass::TargetCompile && rejection is None {
        identifiers_of(injection)
    } else {
        Seq::empty()
    }
}

/// The short digest of each normalized argument.
pub open spec fn short_digests(normalized: Seq<Seq<u8>>) -> Seq<Seq<char>> {
    normalized.map_values(|argument: Seq<u8>| short_digest_of(argument))
}

/// Whether `record` is the evidence of one invocation.
pub open spec fn records_invocation(
    record: CaptureRecord,
    context: ShimContextView,
    classification: ClassificationView,
    arguments: Seq<Seq<u8>>,
    final_arguments: Seq<Seq<u8>>,
    rejection: Option<Seq<char>>,
) -> bool {
    let normalized = all_normalized(arguments, context.target_directory);
    &&& record.protocol@ == PROTOCOL@
    &&& record.normalization == NORMALIZATION_VERSION
    &&& record.record_id@ == Seq::<char>::empty()
    &&& record.stage == context.stage
    &&& record.class == classification.class
    &&& record.exact_target == classification.exact_target
    &&& record.emit == classification.emit
    &&& record.print == classification.print
    &&& optional_text(record.crate_name) == classification.crate_name
    &&& texts(record.crate_types@) == classification.crate_types
    &&& optional_text(record.metadata) == classification.metadata
    &&& optional_text(record.extra_filename) == classification.extra_filename
    &&& record.argument_count == arguments.len()
    &&& record.pre_digest@ == sha256_text(frame(arguments))
    &&& record.post_digest@ == sha256_text(frame(final_arguments))
    &&& record.normalized_digest@ == sha256_text(frame(normalized))
    &&& texts(record.argument_digests@) == if classification.class
        == InvocationClass::TargetCompile {
        short_digests(normalized)
    } else {
        Seq::empty()
    }
    &&& texts(record.injected_flags@) == received_identifiers(
        context.injection,
        classification,
        rejection,
    )
    &&& optional_text(record.rejection) == rejection
}

fn owned_labels(labels: &Vec<&'static str>) -> (owned: Vec<String>)
    ensures
        texts(owned@) == labels@.map_values(|label: &'static str| label@),
{
    let mut owned: Vec<String> = Vec::new();
    let mut index: usize = 0;
    while index < labels.len()
        invariant
            index <= labels@.len(),
            owned@.len() == index,
            forall|i: int| 0 <= i < index ==> (#[trigger] owned@[i])@ == labels@[i]@,
        decreases labels@.len() - index,
    {
        owned.push(labels[index].to_owned());
        index = index + 1;
    }
    assert(texts(owned@) =~= labels@.map_values(|label: &'static str| label@));
    owned
}

/// The identifiers of the controls of an injection, as owned texts.
pub fn expected_flags(injection: &Injection) -> (flags: Vec<String>)
    ensures
        texts(flags@) == identifiers_of(injection@),
{
    owned_labels(&injection.flag_identifiers())
}

fn digest_each(normalized: &Vec<Vec<u8>>) -> (digests: Vec<String>)
    ensures
        texts(digests@) == short_digests(byte_strings(normalized@)),
{
    let mut digests: Vec<String> = Vec::new();
    let mut index: usize = 0;
    while index < normalized.len()
        invariant
            index <= normalized@.len(),
            digests@.len() == index,
            forall|i: int|
                0 <= i < index ==> (#[trigger] digests@[i])@ == short_digest_of(normalized@[i]@),
        decreases normalized@.len() - index,
    {
        digests.push(short_digest(normalized[index].as_slice()));
        index = index + 1;
    }
    assert(texts(digests@) =~= short_digests(byte_strings(normalized@)));
    digests
}

/// Builds the evidence record of one invocation, still without an identity.
pub fn build_record(
    context: &ShimContext,
    classification: &Classification,
    arguments: &Vec<Vec<u8>>,
    final_arguments: &Vec<Vec<u8>>,
    rejection: Option<&'static str>,
) -> (record: CaptureRecord)
    ensures
        records_invocation(
            record,
            context@,
            classification@,
            byte_strings(arguments@),
            byte_strings(final_arguments@),
            optional_label(rejection),
        ),
{
    let compiles_target: bool = classification.class == InvocationClass::TargetCompile;
    let mut injected_flags: Vec<String> = Vec::new();
    if compiles_target && rejection.is_none() {
        injected_flags = expected_flags(&context.injection);
    } else {
        assert(texts(injected_flags@) =~= Seq::empty());
    }
    let normalized = normalize_arguments(arguments, context.target_directory.as_slice());
    // Only a target compilation is compared across stages, so only it pays the per-argument
    // digest cost inside the bounded record.
    let mut argument_digests: Vec<String> = Vec::new();
    if compiles_target {
        argument_digests = digest_each(&normalized);
    } else {
        assert(texts(argument_digests@) =~= Seq::empty());
    }
    CaptureRecord {
        protocol: PROTOCOL.to_owned(),
        normalization: NORMALIZATION_VERSION,
        record_id: String::new(),
        stage: context.stage,
        class: classification.class,
        exact_target: classification.exact_target,
        emit: classification.emit,
        print: classification.print,
        crate_name: copy_text(&classification.crate_name),
        crate_types: classification.crate_types.clone(),
        metadata: copy_text(&classification.metadata),
        extra_filename: copy_text(&classification.extra_filename),
        argument_count: arguments.len(),
        pre_digest: argument_digest(arguments),
        post_digest: argument_digest(final_arguments),
        normalized_digest: framed_digest(&normalized),
        argument_digests,
        injected_flags,
        rejection: match rejection {
            Some(reason) => Some(reason.to_owned()),
            None => None,
        },
    }
}

/// What the shim does with one invocation.
#[derive(Debug)]
pub struct ShimDecision {
    pub record: CaptureRecord,
    pub final_arguments: Vec<Vec<u8>>,
    pub rejection: Option<&'static str>,
}

/// The arguments that the real compiler receives: a target compilation that is not refused gets
/// the stage's controls behind its own arguments, and nothing else is changed.
pub open spec fn passed_arguments(
    arguments: Seq<Seq<u8>>,
    classification: ClassificationView,
    injection: InjectionView,
) -> Seq<Seq<u8>> {
    if classification.class == InvocationClass::TargetCompile && rejection_of(
        classification,
    ) is None {
        arguments + flags_of(injection)
    } else {
        arguments
    }
}

/// Decides one invocation: its evidence, its final arguments, and whether it is refused.
pub fn run_shim(context: &ShimContext, arguments: &Vec<Vec<u8>>) -> (decision: ShimDecision)
    ensures
        ({
            let given = byte_strings(arguments@);
            let classification = classified(given, encode_utf8(context.target@));
            &&& optional_label(decision.rejection) == rejection_of(classification)
            &&& byte_strings(decision.final_arguments@) == passed_arguments(
                given,
                classification,
                context.injection@,
            )
            &&& records_invocation(
                decision.record,
                context@,
                classification,
                given,
                byte_strings(decision.final_arguments@),
                rejection_of(classification),
            )
        }),
{
    let classification = classify(arguments, context.target.as_str());
    let rejection = classification.rejection();
    let mut final_arguments = copy_byte_strings(arguments);
    if rejection.is_none() && classification.class == InvocationClass::TargetCompile {
        let mut flags = context.injection.flags();
        let ghost before = final_arguments@;
        let ghost added = flags@;
        final_arguments.append(&mut flags);
        assert(byte_strings(final_arguments@) =~= byte_strings(before) + byte_strings(added));
    }
    let record = build_record(context, &classification, arguments, &final_arguments, rejection);
    ShimDecision { record, final_arguments, rejection }
}

/// The controls reach only target compilations: every other invocation is passed on unchanged,
/// and its record says that nothing was injected.
pub proof fn law_only_target_compilations_receive_controls(
    arguments: Seq<Seq<u8>>,
    target: Seq<u8>,
    injection: InjectionView,
)
    ensures
        arguments.is_prefix_of(passed_arguments(arguments, classified(arguments, target), injection)),
        classified(arguments, target).class != InvocationClass::TargetCompile ==> passed_arguments(
            arguments,
            classified(arguments, target),
            injection,
        ) == arguments,
        classified(arguments, target).class != InvocationClass::TargetCompile
            ==> received_identifiers(
            injection,
            classified(arguments, target),
            rejection_of(classified(arguments, target)),
        ).len() == 0,
{
    assert(arguments.is_prefix_of(arguments + flags_of(injection)));
}

/// What identifies one attempt to store a record.
pub open spec fn identity_values(
    stage: ShimStage,
    pre_digest: Seq<char>,
    post_digest: Seq<char>,
    process: u32,
    nanoseconds: u128,
    attempt: u32,
) -> Seq<Seq<u8>> {
    seq![
        encode_utf8(stage_label(stage)),
        encode_utf8(pre_digest),
        encode_utf8(post_digest),
        big_endian(process as nat, 4),
        big_endian(nanoseconds as nat, 16),
        big_endian(attempt as nat, 4),
    ]
}

fn big_endian_bytes(value: u128, width: usize) -> (bytes: Vec<u8>)
    ensures
        bytes@ == big_endian(value as nat, width as nat),
{
    let mut bytes: Vec<u8> = Vec::new();
    push_big_endian(&mut bytes, value, width);
    assert(bytes@ =~= big_endian(value as nat, width as nat));
    bytes
}

/// The identity of one attempt to store a record.
pub fn record_identity(record: &CaptureRecord, process: u32, nanoseconds: u128, attempt: u32) -> (
    identity: String)
    ensures
        identity@ == sha256_text(
            frame(
                identity_values(
                    record.stage,
                    record.pre_digest@,
                    record.post_digest@,
                    process,
                    nanoseconds,
                    attempt,
                ),
            ),
        ),
{
    let mut values: Vec<Vec<u8>> = Vec::new();
    values.push(slice_to_vec(record.stage.label().as_bytes()));
    values.push(slice_to_vec(record.pre_digest.as_str().as_bytes()));
    values.push(slice_to_vec(record.post_digest.as_str().as_bytes()));
    values.push(big_endian_bytes(process as u128, 4));
    values.push(big_endian_bytes(nanoseconds, 16));
    values.push(big_endian_bytes(attempt as u128, 4));
    assert(byte_strings(values@) =~= identity_values(
        record.stage,
        record.pre_digest@,
        record.post_digest@,
        process,
        nanoseconds,
        attempt,
    ));
    framed_digest(&values)
}

/// Gives a record its identity for one attempt, and returns the file name that goes with it.
pub fn name_record(record: &mut CaptureRecord, process: u32, nanoseconds: u128, attempt: u32) -> (
    file_name: String)
    ensures
        same_evidence(*final(record), *old(record)),
        final(record).record_id@ == sha256_text(
            frame(
                identity_values(
                    old(record).stage,
                    old(record).pre_digest@,
                    old(record).post_digest@,
                    process,
                    nanoseconds,
                    attempt,
                ),
            ),
        ),
        file_name@ == final(record).record_id@ + ".json"@,
{
    let identity = record_identity(record, process, nanoseconds, attempt);
    let file_name = text2(identity.as_str(), ".json");
    record.record_id = identity;
    file_name
}

/// Attempts of one process at different times or counts never hash the same values.
pub proof fn law_attempts_hash_different_values(
    stage: ShimStage,
    pre_digest: Seq<char>,
    post_digest: Seq<char>,
    process: u32,
    first_time: u128,
    first_attempt: u32,
    second_time: u128,
    second_attempt: u32,
)
    requires
        byte_strings_fit(pre_digest, post_digest),
        first_time != second_time || first_attempt != second_attempt,
    ensures
        frame(
            identity_values(stage, pre_digest, post_digest, process, first_time, first_attempt),
        ) != frame(
            identity_values(stage, pre_digest, post_digest, process, second_time, second_attempt),
        ),
{
    let first = identity_values(stage, pre_digest, post_digest, process, first_time, first_attempt);
    let second = identity_values(
        stage,
        pre_digest,
        post_digest,
        process,
        second_time,
        second_attempt,
    );
    lemma_label_length(stage);
    lemma_number_lengths(process, first_time, first_attempt);
    lemma_number_lengths(process, second_time, second_attempt);
    if frame(first) == frame(second) {
        law_frame_is_unambiguous(first, second);
        assert(first[4] == second[4]);
        assert(first[5] == second[5]);
        assert(byte_range(16) == 0x1_0000_0000_0000_0000_0000_0000_0000_0000) by {
            reveal_with_fuel(byte_range, 17);
        }
        assert(byte_range(4) == 0x1_0000_0000) by {
            reveal_with_fuel(byte_range, 5);
        }
        lemma_big_endian_injective(first_time as nat, second_time as nat, 16);
        lemma_big_endian_injective(first_attempt as nat, second_attempt as nat, 4);
    }
}

/// Whether the two digests are short enough to be framed.
pub open spec fn byte_strings_fit(pre_digest: Seq<char>, post_digest: Seq<char>) -> bool {
    encode_utf8(pre_digest).len() <= u64::MAX && encode_utf8(post_digest).len() <= u64::MAX
}

proof fn lemma_label_length(stage: ShimStage)
    ensures
        encode_utf8(stage_label(stage)).len() <= 16,
{
    reveal_strlit("pgo_reference");
    reveal_strlit("pgo_generate");
    reveal_strlit("pgo_use");
    reveal_strlit("pgo_confirmation");
    assert(is_ascii_chars(stage_label(stage)));
    lemma_ascii_bytes(stage_label(stage));
}

proof fn lemma_number_lengths(process: u32, nanoseconds: u128, attempt: u32)
    ensures
        big_endian(process as nat, 4).len() == 4,
        big_endian(nanoseconds as nat, 16).len() == 16,
        big_endian(attempt as nat, 4).len() == 4,
{
    reveal_with_fuel(big_endian, 17);
}

/// What creating the file of one attempt gave.
#[derive(Debug)]
pub enum CreateOutcome {
    Created,
    AlreadyExists,
    Failed(String),
}

/// What follows an attempt to create a record file.
#[derive(Debug)]
pub enum RecordStep {
    Write,
    Retry(u32),
    Fail(String),
}

/// Refuses a serialized record beyond its bounded size.
pub fn check_record_size(length: u64) -> (checked: Result<(), String>)
    ensures
        match checked {
            Ok(_) => length <= RECORD_BYTE_LIMIT,
            Err(message) => length > RECORD_BYTE_LIMIT && message@
                == "the shim capture record exceeded its bounded size"@,
        },
{
    if length > RECORD_BYTE_LIMIT {
        Err("the shim capture record exceeded its bounded size".to_owned())
    } else {
        Ok(())
    }
}

/// Decides what follows one attempt: an existing name is retried under the bounded policy, and
/// any other failure ends it.
pub fn write_record(attempt: u32, outcome: CreateOutcome) -> (step: RecordStep)
    requires
        attempt < NAME_ATTEMPT_LIMIT,
    ensures
        match outcome {
            CreateOutcome::Created => step is Write,
            CreateOutcome::AlreadyExists => if attempt + 1 < NAME_ATTEMPT_LIMIT {
                step == RecordStep::Retry((attempt + 1) as u32)
            } else {
                step matches RecordStep::Fail(message) && message@
                    == "exhausted the bounded capture-name retry policy"@
            },
            CreateOutcome::Failed(error) => step matches RecordStep::Fail(message) && message@
                == "could not create the shim capture record: "@ + error@,
        },
{
    match outcome {
        CreateOutcome::Created => RecordStep::Write,
        CreateOutcome::AlreadyExists => if attempt + 1 < NAME_ATTEMPT_LIMIT {
            RecordStep::Retry(attempt + 1)
        } else {
            RecordStep::Fail("exhausted the bounded capture-name retry policy".to_owned())
        },
        CreateOutcome::Failed(error) => RecordStep::Fail(
            text2("could not create the shim capture record: ", error.as_str()),
        ),
    }
}

/// One bounded protocol-failure marker.
///
/// It is deliberately not a [`CaptureRecord`]: a protocol failure has no classified invocation,
/// and the parent must be able to tell an aborted shim apart from an absent capture set without
/// matching diagnostic text.
#[derive(Debug)]
pub struct ProtocolFailureMarker {
    pub protocol: String,
    pub reason: String,
    pub message: String,
}

/// The marker of a protocol failure with this message.
pub fn failure_marker(message: &str) -> (marker: ProtocolFailureMarker)
    ensures
        marker.protocol@ == PROTOCOL@,
        marker.reason@ == PROTOCOL_FAILURE_REASON@,
        marker.message@ == message@,
{
    ProtocolFailureMarker {
        protocol: PROTOCOL.to_owned(),
        reason: PROTOCOL_FAILURE_REASON.to_owned(),
        message: message.to_owned(),
    }
}

/// The values behind the name of one marker attempt.
pub open spec fn marker_values(process: u32, nanoseconds: u128, attempt: u32) -> Seq<Seq<u8>> {
    seq![
        big_endian(process as nat, 4),
        big_endian(nanoseconds as nat, 16),
        big_endian(attempt as nat, 4),
    ]
}

/// The file name of one attempt to store a protocol-failure marker.
pub fn write_protocol_failure(process: u32, nanoseconds: u128, attempt: u32) -> (file_name: String)
    ensures
        file_name@ == PROTOCOL_FAILURE_PREFIX@ + sha256_text(
            frame(marker_values(process, nanoseconds, attempt)),
        ) + ".json"@,
{
    let mut values: Vec<Vec<u8>> = Vec::new();
    values.push(big_endian_bytes(process as u128, 4));
    values.push(big_endian_bytes(nanoseconds, 16));
    values.push(big_endian_bytes(attempt as u128, 4));
    assert(byte_strings(values@) =~= marker_values(process, nanoseconds, attempt));
    let identity = framed_digest(&values);
    text3(PROTOCOL_FAILURE_PREFIX, identity.as_str(), ".json")
}

/// A diagnostic cut to its bounded length.
pub fn bounded_diagnostic(message: &str) -> (bounded: String)
    ensures
        bounded@ == bounded_text(message@, DIAGNOSTIC_LIMIT as nat),
{
    bounded_prefix(message, DIAGNOSTIC_LIMIT)
}

/// The line that a protocol failure prints.
pub fn protocol_failure(message: &str) -> (line: String)
    ensures
        line@ == "temper shim protocol failure ("@ + PROTOCOL@ + "): "@ + bounded_text(
            message@,
            DIAGNOSTIC_LIMIT as nat,
        ),
{
    let shown = bounded_diagnostic(message);
    text4("temper shim protocol failure (", PROTOCOL, "): ", shown.as_str())
}

/// The line that a refused compiler input prints.
pub fn rejection_line(reason: &str) -> (line: String)
    ensures
        line@ == "temper compiler input rejected ("@ + reason@
            + "): the resolved rustc arguments already carry a profiling or coverage control, so PGO cannot append its phase control."@,
{
    text3(
        "temper compiler input rejected (",
        reason,
        "): the resolved rustc arguments already carry a profiling or coverage control, so PGO cannot append its phase control.",
    )
}

/// The arguments that a stage's controls add to a compilation: nothing for a reference, a place to
/// write profiles to, or a profile to read and a warning about what it lacks.
pub open spec fn added_arguments(injection: InjectionView) -> Seq<Seq<u8>> {
    match injection {
        InjectionView::Nothing => Seq::empty(),
        InjectionView::Generate(path) => seq![encode_utf8("-Cprofile-generate="@) + path],
        InjectionView::Use(path) => seq![
            encode_utf8("-Cprofile-use="@) + path,
            encode_utf8("-Cllvm-args=-pgo-warn-missing-function"@),
        ],
    }
}

/// An ordinary compilation for the target that carries none of the three controls is not refused:
/// the compiler receives its arguments followed by those of the stage, and the record names them.
pub proof fn law_ordinary_compilations_receive_the_controls(
    arguments: Seq<Seq<u8>>,
    target: Seq<u8>,
    injection: InjectionView,
)
    requires
        compiles_for(arguments, target),
        !carries_control(arguments),
    ensures
        ({
            let found = classified(arguments, target);
            &&& rejection_of(found) is None
            &&& passed_arguments(arguments, found, injection) == arguments + added_arguments(
                injection,
            )
            &&& received_identifiers(injection, found, rejection_of(found)) == match injection {
                InjectionView::Nothing => Seq::<Seq<char>>::empty(),
                InjectionView::Generate(_) => seq!["profile-generate"@],
                InjectionView::Use(_) => seq!["profile-use"@, "pgo-warn-missing-function"@],
            }
        }),
{
    law_ordinary_compilations_are_not_refused(arguments, target);
}

/// A compilation for the target that carries one of the three controls is refused for it: its
/// arguments stay as they are, and the record names no control.
pub proof fn law_refused_compilations_receive_nothing(
    arguments: Seq<Seq<u8>>,
    target: Seq<u8>,
    injection: InjectionView,
)
    requires
        compiles_for(arguments, target),
        carries_control(arguments),
    ensures
        ({
            let found = classified(arguments, target);
            &&& rejection_of(found) == Some("pgo_compiler_input_conflict"@)
            &&& passed_arguments(arguments, found, injection) == arguments
            &&& received_identifiers(injection, found, rejection_of(found)).len() == 0
        }),
{
    law_ordinary_compilations_are_not_refused(arguments, target);
}

/// A record of a target compilation holds one short digest for each argument, in order, taken with
/// the build directory made the same everywhere, and digests of all arguments before and after.
pub proof fn law_records_hold_a_digest_of_every_argument(
    record: CaptureRecord,
    context: ShimContextView,
    classification: ClassificationView,
    arguments: Seq<Seq<u8>>,
    final_arguments: Seq<Seq<u8>>,
    rejection: Option<Seq<char>>,
)
    requires
        records_invocation(
            record,
            context,
            classification,
            arguments,
            final_arguments,
            rejection,
        ),
    ensures
        record.stage == context.stage,
        record.class == classification.class,
        record.argument_count == arguments.len(),
        record.pre_digest@ == sha256_text(frame(arguments)),
        record.post_digest@ == sha256_text(frame(final_arguments)),
        optional_text(record.crate_name) == classification.crate_name,
        optional_text(record.metadata) == classification.metadata,
        optional_text(record.extra_filename) == classification.extra_filename,
        texts(record.crate_types@) == classification.crate_types,
        optional_text(record.rejection) == rejection,
        record.class == InvocationClass::TargetCompile ==> record.argument_digests@.len()
            == arguments.len(),
        record.class == InvocationClass::TargetCompile ==> forall|i: int|
            0 <= i < arguments.len() ==> (#[trigger] record.argument_digests@[i])@ == sha256_text(
                frame(
                    seq![
                        replaced(
                            arguments[i],
                            context.target_directory,
                            encode_utf8("<STAGE_ROOT>"@),
                        ),
                    ],
                ),
            ).take(16),
        record.class != InvocationClass::TargetCompile ==> record.argument_digests@.len() == 0,
{
    let shown = texts(record.argument_digests@);
    assert(shown.len() == record.argument_digests@.len());
    assert forall|i: int| 0 <= i < arguments.len() && record.class == InvocationClass::TargetCompile
        implies (#[trigger] record.argument_digests@[i])@ == sha256_text(
        frame(
            seq![
                replaced(arguments[i], context.target_directory, encode_utf8("<STAGE_ROOT>"@)),
            ],
        ),
    ).take(16) by {
        assert(shown[i] == record.argument_digests@[i]@);
    }
}

/// Whether the variables give this name this value at `index`.
pub open spec fn assigned_at(
    variables: Seq<(Seq<u8>, Seq<u8>)>,
    index: int,
    name: Seq<char>,
    value: Seq<u8>,
) -> bool {
    0 <= index < variables.len() && variables[index].0 == encode_utf8(name) && variables[index].1
        == value
}

/// Whether the variables give this name this value.
pub open spec fn assigns(
    variables: Seq<(Seq<u8>, Seq<u8>)>,
    name: Seq<char>,
    value: Seq<u8>,
) -> bool {
    exists|index: int| #[trigger] assigned_at(variables, index, name, value)
}

/// Whether the variables give a name at most once.
pub open spec fn gives_once(variables: Seq<(Seq<u8>, Seq<u8>)>, name: Seq<char>) -> bool {
    forall|i: int, j: int|
        0 <= i < variables.len() && 0 <= j < variables.len() && #[trigger] variables[i].0
            == encode_utf8(name) && #[trigger] variables[j].0 == encode_utf8(name) ==> i == j
}

proof fn lemma_value_is_assigned(variables: Seq<(Seq<u8>, Seq<u8>)>, name: Seq<char>, from: int)
    requires
        0 <= from,
        value_from(variables, encode_utf8(name), from) is Some,
    ensures
        assigns(variables, name, value_from(variables, encode_utf8(name), from)->0),
    decreases variables.len() - from,
{
    if from < variables.len() {
        if variables[from].0 == encode_utf8(name) {
            assert(assigned_at(variables, from, name, variables[from].1));
        } else {
            lemma_value_is_assigned(variables, name, from + 1);
        }
    }
}

proof fn lemma_no_duplicates(
    variables: Seq<(Seq<u8>, Seq<u8>)>,
    names: Seq<Seq<char>>,
    from: int,
    at: int,
)
    requires
        0 <= from <= at < names.len(),
        duplicate_name(variables, names, from) is None,
    ensures
        gives_once(variables, names[at]),
    decreases at - from,
{
    if from < at {
        lemma_no_duplicates(variables, names, from + 1, at);
    } else {
        assert forall|i: int, j: int|
            0 <= i < variables.len() && 0 <= j < variables.len() && #[trigger] variables[i].0
                == encode_utf8(names[at]) && #[trigger] variables[j].0 == encode_utf8(
                names[at],
            ) implies i == j by {
            if i < j {
                assert(given_twice(variables, names[at]));
            } else if j < i {
                assert(given_twice(variables, names[at]));
            }
        }
    }
}

/// A context is what the private variables say: each of them is given once, the protocol, the
/// stage, the target, the compiler and the controls as they were written, and the directories are
/// those that their paths resolve to.
pub proof fn law_contexts_are_what_the_variables_say(
    variables: Seq<(Seq<u8>, Seq<u8>)>,
    probes: ShimProbes,
    context: ShimContextView,
)
    requires
        context_outcome(variables, probes) == Ok::<ShimContextView, Seq<char>>(context),
    ensures
        gives_once(variables, "TEMPER_SHIM_PROTOCOL"@),
        gives_once(variables, "TEMPER_SHIM_RUN_ROOT"@),
        gives_once(variables, "TEMPER_SHIM_REAL_RUSTC"@),
        gives_once(variables, "TEMPER_SHIM_STAGE"@),
        gives_once(variables, "TEMPER_SHIM_TARGET"@),
        gives_once(variables, "TEMPER_SHIM_TARGET_DIR"@),
        gives_once(variables, "TEMPER_SHIM_CAPTURE_DIR"@),
        gives_once(variables, "TEMPER_SHIM_INJECTION"@),
        assigns(variables, "TEMPER_SHIM_PROTOCOL"@, encode_utf8("temper-rustc-shim-1"@)),
        assigns(
            variables,
            "TEMPER_SHIM_STAGE"@,
            encode_utf8(
                match context.stage {
                    ShimStage::Reference => "pgo_reference"@,
                    ShimStage::Generate => "pgo_generate"@,
                    ShimStage::Use => "pgo_use"@,
                    ShimStage::Confirmation => "pgo_confirmation"@,
                },
            ),
        ),
        assigns(variables, "TEMPER_SHIM_TARGET"@, encode_utf8("x86_64-unknown-linux-gnu"@)),
        context.target == "x86_64-unknown-linux-gnu"@,
        assigns(variables, "TEMPER_SHIM_REAL_RUSTC"@, context.real_rustc),
        is_absolute_path(context.real_rustc),
        assigns(
            variables,
            "TEMPER_SHIM_INJECTION"@,
            match context.injection {
                InjectionView::Nothing => encode_utf8("none"@),
                InjectionView::Generate(path) => encode_utf8("generate="@) + path,
                InjectionView::Use(path) => encode_utf8("use="@) + path,
            },
        ),
        probes.target_directory.directory && probes.target_directory.canonical is Ok
            && probes.target_directory.canonical->Ok_0@ == context.target_directory,
        probes.capture_directory.directory && probes.capture_directory.canonical is Ok
            && probes.capture_directory.canonical->Ok_0@ == context.capture_directory,
        probes.run_root.directory && probes.run_root.canonical is Ok,
{
    let names = shim_variable_names();
    assert(names.len() == 8);
    lemma_no_duplicates(variables, names, 0, 0);
    lemma_no_duplicates(variables, names, 0, 1);
    lemma_no_duplicates(variables, names, 0, 2);
    lemma_no_duplicates(variables, names, 0, 3);
    lemma_no_duplicates(variables, names, 0, 4);
    lemma_no_duplicates(variables, names, 0, 5);
    lemma_no_duplicates(variables, names, 0, 6);
    lemma_no_duplicates(variables, names, 0, 7);
    lemma_value_is_assigned(variables, PROTOCOL_VARIABLE@, 0);
    lemma_value_is_assigned(variables, STAGE_VARIABLE@, 0);
    lemma_value_is_assigned(variables, TARGET_VARIABLE@, 0);
    lemma_value_is_assigned(variables, REAL_RUSTC_VARIABLE@, 0);
    lemma_value_is_assigned(variables, INJECTION_VARIABLE@, 0);
    decode_utf8_encode_utf8(value_of(variables, PROTOCOL_VARIABLE@)->0);
    decode_utf8_encode_utf8(value_of(variables, STAGE_VARIABLE@)->0);
    decode_utf8_encode_utf8(value_of(variables, TARGET_VARIABLE@)->0);
    law_controls_are_read_as_written(value_of(variables, INJECTION_VARIABLE@)->0);
}

} // verus!
