//! Private compiler interposition: stages, phase controls, and the plan of one interposed build.

use vstd::prelude::*;
use vstd::slice::slice_to_vec;
use vstd::string::*;
use vstd::utf8::*;

use crate::paths::{is_absolute, is_absolute_path, join, join_path};
use crate::text::{
    byte_strings, first_place, lemma_ascii_bytes, lemma_first_place, optional_bytes, same_bytes,
    same_text, split_at_first, split_once, text2,
};

verus! {

/// Versioned private protocol. It is internal and is never a public contract.
pub const PROTOCOL: &'static str = "temper-rustc-shim-1";

/// Version of the record shape and digest construction.
pub const NORMALIZATION_VERSION: u32 = 1;

/// The one supported host and target.
pub const SUPPORTED_HOST: &'static str = "x86_64-unknown-linux-gnu";

pub const PROTOCOL_VARIABLE: &'static str = "TEMPER_SHIM_PROTOCOL";

pub const RUN_ROOT_VARIABLE: &'static str = "TEMPER_SHIM_RUN_ROOT";

pub const REAL_RUSTC_VARIABLE: &'static str = "TEMPER_SHIM_REAL_RUSTC";

pub const STAGE_VARIABLE: &'static str = "TEMPER_SHIM_STAGE";

pub const TARGET_VARIABLE: &'static str = "TEMPER_SHIM_TARGET";

pub const TARGET_DIRECTORY_VARIABLE: &'static str = "TEMPER_SHIM_TARGET_DIR";

pub const CAPTURE_DIRECTORY_VARIABLE: &'static str = "TEMPER_SHIM_CAPTURE_DIR";

pub const INJECTION_VARIABLE: &'static str = "TEMPER_SHIM_INJECTION";

/// Exit status of a private protocol failure. It never reaches the public command line.
pub const PROTOCOL_FAILURE_EXIT: i32 = 97;

/// Exit status of an observed compiler input that rejects only PGO.
pub const REJECTION_EXIT: i32 = 98;

pub const RECORD_LIMIT: usize = 10_000;

pub const CAPTURE_BYTE_LIMIT: u64 = 33_554_432;

pub const RECORD_BYTE_LIMIT: u64 = 65_536;

pub const FIELD_LIMIT: usize = 512;

pub const CRATE_TYPE_LIMIT: usize = 16;

pub const NAME_ATTEMPT_LIMIT: u32 = 64;

pub const DIAGNOSTIC_LIMIT: usize = 512;

/// Bounded argument count of one comparable target compilation. A longer argv is unsupported
/// rather than partially compared.
pub const ARGUMENT_LIMIT: usize = 2_048;

/// Hexadecimal length of one per-argument normalized digest. It keeps a record inside its byte
/// budget while staying far beyond accidental collision.
pub const ARGUMENT_DIGEST_LENGTH: usize = 16;

/// Replacement of every stage-target-root substring in a normalized argument.
pub const STAGE_ROOT_PLACEHOLDER: &'static str = "<STAGE_ROOT>";

/// File-name prefix of a shim protocol-failure marker.
pub const PROTOCOL_FAILURE_PREFIX: &'static str = "protocol-failure-";

pub const MISSING_FUNCTION_WARNING: &'static str = "-Cllvm-args=-pgo-warn-missing-function";

pub const PROFILE_GENERATE_FLAG: &'static str = "profile-generate";

pub const PROFILE_USE_FLAG: &'static str = "profile-use";

pub const MISSING_FUNCTION_FLAG: &'static str = "pgo-warn-missing-function";

pub const INPUT_CONFLICT_REASON: &'static str = "pgo_compiler_input_conflict";

pub const INPUT_AMBIGUITY_REASON: &'static str = "pgo_compiler_input_ambiguous";

pub const CAPTURE_MISSING_REASON: &'static str = "compiler_capture_missing";

pub const CAPTURE_CORRUPT_REASON: &'static str = "compiler_capture_corrupt";

pub const CAPTURE_LIMIT_REASON: &'static str = "compiler_capture_limit";

pub const INJECTION_UNEXPECTED_REASON: &'static str = "compiler_injection_unexpected";

pub const PROTOCOL_FAILURE_REASON: &'static str = "compiler_protocol_failure";

/// Compiler-input reasons a build failure must surface unchanged, so an interposition or
/// evidence defect is never reported as a plain build failure.
pub open spec fn is_compiler_input_reason(reason: Seq<char>) -> bool {
    ||| reason == INPUT_CONFLICT_REASON@
    ||| reason == INPUT_AMBIGUITY_REASON@
    ||| reason == CAPTURE_MISSING_REASON@
    ||| reason == CAPTURE_CORRUPT_REASON@
    ||| reason == CAPTURE_LIMIT_REASON@
    ||| reason == INJECTION_UNEXPECTED_REASON@
    ||| reason == PROTOCOL_FAILURE_REASON@
}

/// The compiler-input reason equal to `reason`, if it is one.
pub fn compiler_input_reason(reason: &str) -> (found: Option<&'static str>)
    ensures
        match found {
            Some(stable) => is_compiler_input_reason(reason@) && stable@ == reason@,
            None => !is_compiler_input_reason(reason@),
        },
{
    if same_text(reason, INPUT_CONFLICT_REASON) {
        Some(INPUT_CONFLICT_REASON)
    } else if same_text(reason, INPUT_AMBIGUITY_REASON) {
        Some(INPUT_AMBIGUITY_REASON)
    } else if same_text(reason, CAPTURE_MISSING_REASON) {
        Some(CAPTURE_MISSING_REASON)
    } else if same_text(reason, CAPTURE_CORRUPT_REASON) {
        Some(CAPTURE_CORRUPT_REASON)
    } else if same_text(reason, CAPTURE_LIMIT_REASON) {
        Some(CAPTURE_LIMIT_REASON)
    } else if same_text(reason, INJECTION_UNEXPECTED_REASON) {
        Some(INJECTION_UNEXPECTED_REASON)
    } else if same_text(reason, PROTOCOL_FAILURE_REASON) {
        Some(PROTOCOL_FAILURE_REASON)
    } else {
        None
    }
}

/// One interposed build stage. Every stage owns a fresh target and capture root.
#[derive(Clone, Copy, Debug, PartialEq, Eq, Structural)]
pub enum ShimStage {
    Reference,
    Generate,
    Use,
    Confirmation,
}

/// The label of a stage.
pub open spec fn stage_label(stage: ShimStage) -> Seq<char> {
    match stage {
        ShimStage::Reference => "pgo_reference"@,
        ShimStage::Generate => "pgo_generate"@,
        ShimStage::Use => "pgo_use"@,
        ShimStage::Confirmation => "pgo_confirmation"@,
    }
}

/// The stage that a label names.
pub open spec fn stage_of_label(label: Seq<char>) -> Option<ShimStage> {
    if label == "pgo_reference"@ {
        Some(ShimStage::Reference)
    } else if label == "pgo_generate"@ {
        Some(ShimStage::Generate)
    } else if label == "pgo_use"@ {
        Some(ShimStage::Use)
    } else if label == "pgo_confirmation"@ {
        Some(ShimStage::Confirmation)
    } else {
        None
    }
}

impl ShimStage {
    pub fn label(self) -> (label: &'static str)
        ensures
            label@ == stage_label(self),
    {
        match self {
            ShimStage::Reference => "pgo_reference",
            ShimStage::Generate => "pgo_generate",
            ShimStage::Use => "pgo_use",
            ShimStage::Confirmation => "pgo_confirmation",
        }
    }

    /// Stage directory name. The confirmation stage keeps Cargo's historical
    /// `confirmation/<strategy>` layout so the promotion anchor still proves a confirmed
    /// artifact came from a confirmation build.
    pub fn directory_name(self) -> (name: &'static str)
        ensures
            name@ == match self {
                ShimStage::Confirmation => "confirmation/pgo"@,
                _ => stage_label(self),
            },
    {
        match self {
            ShimStage::Reference => "pgo_reference",
            ShimStage::Generate => "pgo_generate",
            ShimStage::Use => "pgo_use",
            ShimStage::Confirmation => "confirmation/pgo",
        }
    }

    pub fn parse(value: &str) -> (stage: Option<ShimStage>)
        ensures
            stage == stage_of_label(value@),
    {
        if same_text(value, "pgo_reference") {
            Some(ShimStage::Reference)
        } else if same_text(value, "pgo_generate") {
            Some(ShimStage::Generate)
        } else if same_text(value, "pgo_use") {
            Some(ShimStage::Use)
        } else if same_text(value, "pgo_confirmation") {
            Some(ShimStage::Confirmation)
        } else {
            None
        }
    }
}

/// Every stage is read back from its label, so no two stages share one.
pub proof fn law_stage_labels_round_trip(stage: ShimStage)
    ensures
        stage_of_label(stage_label(stage)) == Some(stage),
{
    reveal_strlit("pgo_reference");
    reveal_strlit("pgo_generate");
    reveal_strlit("pgo_use");
    reveal_strlit("pgo_confirmation");
    assert("pgo_reference"@.len() == 13);
    assert("pgo_generate"@.len() == 12);
    assert("pgo_use"@.len() == 7);
    assert("pgo_confirmation"@.len() == 16);
}

/// Phase controls this stage appends to real target compilations.
#[derive(Debug)]
pub enum Injection {
    Nothing,
    Generate(Vec<u8>),
    Use(Vec<u8>),
}

/// The phase controls of a stage, with the profile path as a byte sequence.
pub enum InjectionView {
    Nothing,
    Generate(Seq<u8>),
    Use(Seq<u8>),
}

impl View for Injection {
    type V = InjectionView;

    open spec fn view(&self) -> InjectionView {
        match self {
            Injection::Nothing => InjectionView::Nothing,
            Injection::Generate(path) => InjectionView::Generate(path@),
            Injection::Use(path) => InjectionView::Use(path@),
        }
    }
}

/// The value of the injection variable.
pub open spec fn encoded_injection(injection: InjectionView) -> Seq<u8> {
    match injection {
        InjectionView::Nothing => encode_utf8("none"@),
        InjectionView::Generate(path) => encode_utf8("generate="@) + path,
        InjectionView::Use(path) => encode_utf8("use="@) + path,
    }
}

/// The phase controls that a value of the injection variable names, or why it is refused.
pub open spec fn parsed_injection(value: Seq<u8>) -> Result<InjectionView, Seq<char>> {
    let shape = INJECTION_VARIABLE@ + " must be none, generate=<absolute> or use=<absolute>"@;
    if value == encode_utf8("none"@) {
        Ok(InjectionView::Nothing)
    } else {
        match split_at_first(value, 61) {
            None => Err(shape),
            Some((mode, path)) => if !is_absolute_path(path) {
                Err(INJECTION_VARIABLE@ + " requires an absolute profile path"@)
            } else if mode == encode_utf8("generate"@) {
                Ok(InjectionView::Generate(path))
            } else if mode == encode_utf8("use"@) {
                Ok(InjectionView::Use(path))
            } else {
                Err(shape)
            },
        }
    }
}

/// Bounded identifiers of the appended controls. No path is published.
pub open spec fn identifiers_of(injection: InjectionView) -> Seq<Seq<char>> {
    match injection {
        InjectionView::Nothing => Seq::empty(),
        InjectionView::Generate(_) => seq![PROFILE_GENERATE_FLAG@],
        InjectionView::Use(_) => seq![PROFILE_USE_FLAG@, MISSING_FUNCTION_FLAG@],
    }
}

/// The compiler arguments that apply the controls.
pub open spec fn flags_of(injection: InjectionView) -> Seq<Seq<u8>> {
    match injection {
        InjectionView::Nothing => Seq::empty(),
        InjectionView::Generate(path) => seq![encode_utf8("-Cprofile-generate="@) + path],
        InjectionView::Use(path) => seq![
            encode_utf8("-Cprofile-use="@) + path,
            encode_utf8(MISSING_FUNCTION_WARNING@),
        ],
    }
}

/// The profile path of the controls.
pub open spec fn profile_of(injection: InjectionView) -> Option<Seq<u8>> {
    match injection {
        InjectionView::Nothing => None,
        InjectionView::Generate(path) => Some(path),
        InjectionView::Use(path) => Some(path),
    }
}

/// The bytes of `prefix`, followed by `path`.
pub fn prefixed(prefix: &str, path: &[u8]) -> (bytes: Vec<u8>)
    ensures
        bytes@ == encode_utf8(prefix@) + path@,
{
    let mut bytes = slice_to_vec(prefix.as_bytes());
    bytes.extend_from_slice(path);
    bytes
}

impl Injection {
    pub fn encode(&self) -> (value: Vec<u8>)
        ensures
            value@ == encoded_injection(self@),
    {
        match self {
            Injection::Nothing => slice_to_vec("none".as_bytes()),
            Injection::Generate(path) => prefixed("generate=", path.as_slice()),
            Injection::Use(path) => prefixed("use=", path.as_slice()),
        }
    }

    pub fn parse(value: &[u8]) -> (parsed: Result<Injection, String>)
        ensures
            match parsed {
                Ok(injection) => parsed_injection(value@) == Ok::<InjectionView, Seq<char>>(
                    injection@,
                ),
                Err(message) => parsed_injection(value@) == Err::<InjectionView, Seq<char>>(
                    message@,
                ),
            },
    {
        if same_bytes(value, "none".as_bytes()) {
            return Ok(Injection::Nothing);
        }
        match split_once(value, 61) {
            None => Err(
                text2(INJECTION_VARIABLE, " must be none, generate=<absolute> or use=<absolute>"),
            ),
            Some((mode, path)) => {
                if !is_absolute(path) {
                    return Err(text2(INJECTION_VARIABLE, " requires an absolute profile path"));
                }
                if same_bytes(mode, "generate".as_bytes()) {
                    Ok(Injection::Generate(slice_to_vec(path)))
                } else if same_bytes(mode, "use".as_bytes()) {
                    Ok(Injection::Use(slice_to_vec(path)))
                } else {
                    Err(
                        text2(
                            INJECTION_VARIABLE,
                            " must be none, generate=<absolute> or use=<absolute>",
                        ),
                    )
                }
            },
        }
    }

    /// Bounded identifiers of the appended controls. No path is published.
    pub fn flag_identifiers(&self) -> (identifiers: Vec<&'static str>)
        ensures
            identifiers@.map_values(|identifier: &'static str| identifier@) == identifiers_of(
                self@,
            ),
    {
        let mut identifiers: Vec<&'static str> = Vec::new();
        match self {
            Injection::Nothing => {},
            Injection::Generate(_) => {
                identifiers.push(PROFILE_GENERATE_FLAG);
            },
            Injection::Use(_) => {
                identifiers.push(PROFILE_USE_FLAG);
                identifiers.push(MISSING_FUNCTION_FLAG);
            },
        }
        assert(identifiers@.map_values(|identifier: &'static str| identifier@) =~= identifiers_of(
            self@,
        ));
        identifiers
    }

    /// The compiler arguments that apply the controls.
    pub fn flags(&self) -> (flags: Vec<Vec<u8>>)
        ensures
            byte_strings(flags@) == flags_of(self@),
    {
        let mut flags: Vec<Vec<u8>> = Vec::new();
        match self {
            Injection::Nothing => {},
            Injection::Generate(path) => {
                flags.push(prefixed("-Cprofile-generate=", path.as_slice()));
            },
            Injection::Use(path) => {
                flags.push(prefixed("-Cprofile-use=", path.as_slice()));
                flags.push(slice_to_vec(MISSING_FUNCTION_WARNING.as_bytes()));
            },
        }
        assert(byte_strings(flags@) =~= flags_of(self@));
        flags
    }

    pub fn profile_path(&self) -> (path: Option<&Vec<u8>>)
        ensures
            match path {
                Some(found) => profile_of(self@) == Some(found@),
                None => profile_of(self@) is None,
            },
    {
        match self {
            Injection::Nothing => None,
            Injection::Generate(path) => Some(path),
            Injection::Use(path) => Some(path),
        }
    }
}

impl Clone for Injection {
    fn clone(&self) -> (copy: Injection)
        ensures
            copy@ == self@,
    {
        match self {
            Injection::Nothing => Injection::Nothing,
            Injection::Generate(path) => Injection::Generate(path.clone()),
            Injection::Use(path) => Injection::Use(path.clone()),
        }
    }
}

proof fn lemma_first_place_of_prefixed(word: Seq<char>, whole: Seq<char>, path: Seq<u8>)
    requires
        is_ascii_chars(word),
        whole == word.push('='),
        forall|i: int| 0 <= i < word.len() ==> #[trigger] word[i] != '=',
    ensures
        split_at_first(encode_utf8(whole) + path, 61) == Some((encode_utf8(word), path)),
{
    assert(is_ascii_chars(whole));
    lemma_ascii_bytes(word);
    lemma_ascii_bytes(whole);
    let value = encode_utf8(whole) + path;
    let place = word.len() as int;
    assert(value[place] == whole[place] as u8);
    lemma_first_place(value, 61, 0);
    let found = first_place(value, 61, 0);
    assert(found is Some);
    let at = found->0;
    if at < place {
        assert(value[at] == whole[at] as u8);
        assert(whole[at] == word[at]);
        assert((word[at] as u8) == 61u8);
        assert(word[at] == '=');
        assert(false);
    }
    assert(at == place);
    assert(value.take(place) =~= encode_utf8(word)) by {
        assert forall|i: int| 0 <= i < place implies value.take(place)[i] == encode_utf8(
            word,
        )[i] by {
            assert(whole[i] == word[i]);
        }
    }
    assert(value.skip(place + 1) =~= path);
}

/// The private protocol carries a stage's controls unchanged: what was encoded with an absolute
/// profile path is parsed back.
pub proof fn law_injection_round_trip(injection: InjectionView)
    requires
        profile_of(injection) is Some ==> is_absolute_path(profile_of(injection)->0),
    ensures
        parsed_injection(encoded_injection(injection)) == Ok::<InjectionView, Seq<char>>(injection),
{
    reveal_strlit("none");
    reveal_strlit("generate");
    reveal_strlit("generate=");
    reveal_strlit("use");
    reveal_strlit("use=");
    assert("generate="@ =~= "generate"@.push('='));
    assert("use="@ =~= "use"@.push('='));
    lemma_ascii_bytes("none"@);
    lemma_ascii_bytes("generate="@);
    lemma_ascii_bytes("use="@);
    lemma_ascii_bytes("generate"@);
    lemma_ascii_bytes("use"@);
    match injection {
        InjectionView::Nothing => {},
        InjectionView::Generate(path) => {
            lemma_first_place_of_prefixed("generate"@, "generate="@, path);
            let value = encode_utf8("generate="@) + path;
            assert(value[0] == "generate="@[0] as u8);
            assert(encode_utf8("none"@)[0] == "none"@[0] as u8);
        },
        InjectionView::Use(path) => {
            lemma_first_place_of_prefixed("use"@, "use="@, path);
            let value = encode_utf8("use="@) + path;
            assert(value[0] == "use="@[0] as u8);
            assert(encode_utf8("none"@)[0] == "none"@[0] as u8);
            assert(encode_utf8("use"@).len() != encode_utf8("generate"@).len());
        },
    }
}

/// Resolved compilers for one interposed run.
#[derive(Debug)]
pub struct ShimTools {
    pub shim_executable: Vec<u8>,
    pub shim_sha256: String,
    pub real_rustc: Vec<u8>,
    pub real_rustc_version: String,
}

/// The resolved compilers, as sequences.
pub struct ShimToolsView {
    pub shim_executable: Seq<u8>,
    pub shim_sha256: Seq<char>,
    pub real_rustc: Seq<u8>,
    pub real_rustc_version: Seq<char>,
}

impl View for ShimTools {
    type V = ShimToolsView;

    open spec fn view(&self) -> ShimToolsView {
        ShimToolsView {
            shim_executable: self.shim_executable@,
            shim_sha256: self.shim_sha256@,
            real_rustc: self.real_rustc@,
            real_rustc_version: self.real_rustc_version@,
        }
    }
}

impl Clone for ShimTools {
    fn clone(&self) -> (copy: ShimTools)
        ensures
            copy@ == self@,
    {
        ShimTools {
            shim_executable: self.shim_executable.clone(),
            shim_sha256: self.shim_sha256.clone(),
            real_rustc: self.real_rustc.clone(),
            real_rustc_version: self.real_rustc_version.clone(),
        }
    }
}

/// Everything one interposed Cargo build needs to install the private protocol.
#[derive(Debug)]
pub struct InterpositionPlan {
    pub stage: ShimStage,
    pub tools: ShimTools,
    pub run_root: Vec<u8>,
    pub target_directory: Vec<u8>,
    pub capture_directory: Vec<u8>,
    pub injection: Injection,
}

/// Bounded interposition identity persisted with every interposed build.
#[derive(Debug)]
pub struct InterpositionRecord {
    pub protocol: &'static str,
    pub normalization: u32,
    pub stage: ShimStage,
    pub shim_executable: Vec<u8>,
    pub shim_sha256: String,
    pub real_rustc: Vec<u8>,
    pub real_rustc_version: String,
    pub capture_directory: Vec<u8>,
    pub profile_path: Option<Vec<u8>>,
    pub injected_flags: Vec<&'static str>,
}

/// One environment variable: its name and its value.
#[derive(Debug)]
pub struct Variable {
    pub name: Vec<u8>,
    pub value: Vec<u8>,
}

/// The variables as pairs of name and value.
pub open spec fn variable_pairs(variables: Seq<Variable>) -> Seq<(Seq<u8>, Seq<u8>)> {
    variables.map_values(|variable: Variable| (variable.name@, variable.value@))
}

/// The environment that installs the protocol of `plan` in one Cargo child.
pub open spec fn plan_environment(plan: InterpositionPlan) -> Seq<(Seq<u8>, Seq<u8>)> {
    seq![
        (encode_utf8("RUSTC"@), plan.tools.shim_executable@),
        (encode_utf8(PROTOCOL_VARIABLE@), encode_utf8(PROTOCOL@)),
        (encode_utf8(RUN_ROOT_VARIABLE@), plan.run_root@),
        (encode_utf8(REAL_RUSTC_VARIABLE@), plan.tools.real_rustc@),
        (encode_utf8(STAGE_VARIABLE@), encode_utf8(stage_label(plan.stage))),
        (encode_utf8(TARGET_VARIABLE@), encode_utf8(SUPPORTED_HOST@)),
        (encode_utf8(TARGET_DIRECTORY_VARIABLE@), plan.target_directory@),
        (encode_utf8(CAPTURE_DIRECTORY_VARIABLE@), plan.capture_directory@),
        (encode_utf8(INJECTION_VARIABLE@), encoded_injection(plan.injection@)),
    ]
}

/// One variable with a text name.
pub fn variable(name: &str, value: &[u8]) -> (made: Variable)
    ensures
        made.name@ == encode_utf8(name@),
        made.value@ == value@,
{
    Variable { name: slice_to_vec(name.as_bytes()), value: slice_to_vec(value) }
}

/// Whether `record` is the persisted identity of `plan`.
pub open spec fn records_plan(record: InterpositionRecord, plan: InterpositionPlan) -> bool {
    &&& record.protocol@ == PROTOCOL@
    &&& record.normalization == NORMALIZATION_VERSION
    &&& record.stage == plan.stage
    &&& record.shim_executable@ == plan.tools.shim_executable@
    &&& record.shim_sha256@ == plan.tools.shim_sha256@
    &&& record.real_rustc@ == plan.tools.real_rustc@
    &&& record.real_rustc_version@ == plan.tools.real_rustc_version@
    &&& record.capture_directory@ == plan.capture_directory@
    &&& optional_bytes(record.profile_path) == profile_of(plan.injection@)
    &&& record.injected_flags@.map_values(|flag: &'static str| flag@) == identifiers_of(
        plan.injection@,
    )
}

impl InterpositionPlan {
    pub fn record(&self) -> (record: InterpositionRecord)
        ensures
            records_plan(record, *self),
    {
        let profile_path = match self.injection.profile_path() {
            Some(path) => Some(path.clone()),
            None => None,
        };
        InterpositionRecord {
            protocol: PROTOCOL,
            normalization: NORMALIZATION_VERSION,
            stage: self.stage,
            shim_executable: self.tools.shim_executable.clone(),
            shim_sha256: self.tools.shim_sha256.clone(),
            real_rustc: self.tools.real_rustc.clone(),
            real_rustc_version: self.tools.real_rustc_version.clone(),
            capture_directory: self.capture_directory.clone(),
            profile_path,
            injected_flags: self.injection.flag_identifiers(),
        }
    }

    /// The process-local protocol of one Cargo child, as environment assignments.
    pub fn apply(&self) -> (variables: Vec<Variable>)
        ensures
            variable_pairs(variables@) == plan_environment(*self),
    {
        let mut variables: Vec<Variable> = Vec::new();
        variables.push(variable("RUSTC", self.tools.shim_executable.as_slice()));
        variables.push(variable(PROTOCOL_VARIABLE, PROTOCOL.as_bytes()));
        variables.push(variable(RUN_ROOT_VARIABLE, self.run_root.as_slice()));
        variables.push(variable(REAL_RUSTC_VARIABLE, self.tools.real_rustc.as_slice()));
        variables.push(variable(STAGE_VARIABLE, self.stage.label().as_bytes()));
        variables.push(variable(TARGET_VARIABLE, SUPPORTED_HOST.as_bytes()));
        variables.push(variable(TARGET_DIRECTORY_VARIABLE, self.target_directory.as_slice()));
        variables.push(variable(CAPTURE_DIRECTORY_VARIABLE, self.capture_directory.as_slice()));
        variables.push(variable(INJECTION_VARIABLE, self.injection.encode().as_slice()));
        assert(variable_pairs(variables@) =~= plan_environment(*self));
        variables
    }
}

/// Root of every stage capture directory of one run.
pub fn capture_root(run_directory: &[u8]) -> (root: Vec<u8>)
    ensures
        root@ == join_path(run_directory@, encode_utf8("captures"@)),
{
    join(run_directory, "captures".as_bytes())
}

/// Controls are only read from the values that name them: none, or a way and an absolute path.
pub proof fn law_controls_are_read_as_written(value: Seq<u8>)
    ensures
        parsed_injection(value) is Ok ==> match parsed_injection(value)->Ok_0 {
            InjectionView::Nothing => value == encode_utf8("none"@),
            InjectionView::Generate(path) => is_absolute_path(path) && value == encode_utf8(
                "generate="@,
            ) + path,
            InjectionView::Use(path) => is_absolute_path(path) && value == encode_utf8("use="@)
                + path,
        },
{
    reveal_strlit("generate");
    reveal_strlit("generate=");
    reveal_strlit("use");
    reveal_strlit("use=");
    assert("generate="@ =~= "generate"@.push('='));
    assert("use="@ =~= "use"@.push('='));
    lemma_ascii_bytes("generate="@);
    lemma_ascii_bytes("use="@);
    lemma_ascii_bytes("generate"@);
    lemma_ascii_bytes("use"@);
    assert(encode_utf8("generate="@) =~= encode_utf8("generate"@).push(61));
    assert(encode_utf8("use="@) =~= encode_utf8("use"@).push(61));
    lemma_first_place(value, 61, 0);
    match first_place(value, 61, 0) {
        Some(place) => {
            assert(value =~= value.take(place).push(61) + value.skip(place + 1));
        },
        None => {},
    }
}

/// The environment of a build names the private compiler as its compiler, and hands it the stage,
/// the directories, the real compiler and the controls of the plan.
pub proof fn law_plans_are_handed_to_the_build(plan: InterpositionPlan)
    ensures
        ({
            let variables = plan_environment(plan);
            &&& variables.contains((encode_utf8("RUSTC"@), plan.tools.shim_executable@))
            &&& variables.contains(
                (encode_utf8("TEMPER_SHIM_PROTOCOL"@), encode_utf8("temper-rustc-shim-1"@)),
            )
            &&& variables.contains((encode_utf8("TEMPER_SHIM_RUN_ROOT"@), plan.run_root@))
            &&& variables.contains(
                (encode_utf8("TEMPER_SHIM_REAL_RUSTC"@), plan.tools.real_rustc@),
            )
            &&& variables.contains(
                (
                    encode_utf8("TEMPER_SHIM_STAGE"@),
                    encode_utf8(
                        match plan.stage {
                            ShimStage::Reference => "pgo_reference"@,
                            ShimStage::Generate => "pgo_generate"@,
                            ShimStage::Use => "pgo_use"@,
                            ShimStage::Confirmation => "pgo_confirmation"@,
                        },
                    ),
                ),
            )
            &&& variables.contains(
                (encode_utf8("TEMPER_SHIM_TARGET"@), encode_utf8("x86_64-unknown-linux-gnu"@)),
            )
            &&& variables.contains((encode_utf8("TEMPER_SHIM_TARGET_DIR"@), plan.target_directory@))
            &&& variables.contains(
                (encode_utf8("TEMPER_SHIM_CAPTURE_DIR"@), plan.capture_directory@),
            )
            &&& variables.contains(
                (
                    encode_utf8("TEMPER_SHIM_INJECTION"@),
                    match plan.injection@ {
                        InjectionView::Nothing => encode_utf8("none"@),
                        InjectionView::Generate(path) => encode_utf8("generate="@) + path,
                        InjectionView::Use(path) => encode_utf8("use="@) + path,
                    },
                ),
            )
            &&& variables.len() == 9
        }),
{
    let variables = plan_environment(plan);
    assert(variables.contains(variables[0]));
    assert(variables.contains(variables[1]));
    assert(variables.contains(variables[2]));
    assert(variables.contains(variables[3]));
    assert(variables.contains(variables[4]));
    assert(variables.contains(variables[5]));
    assert(variables.contains(variables[6]));
    assert(variables.contains(variables[7]));
    assert(variables.contains(variables[8]));
}

} // verus!
