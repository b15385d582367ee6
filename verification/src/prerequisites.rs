//! What is proved before a PGO build is interposed.
//!
//! Cargo resolves every compiler input, and the shim appends the phase controls after it. What
//! must be proved is that no compiler wrapper or replacement compiler sits between Cargo and the
//! real rustc, because an outer cache can key an artifact before the phase control exists.

use vstd::prelude::*;
use vstd::string::*;
use vstd::utf8::*;

use crate::config_graph::{override_outcome, reject_compiler_override};
use crate::document::{read_document, toml_document};
use crate::interposition::{variable_pairs, ShimToolsView, Variable, PROTOCOL};
use crate::paths::{join, join_path, parent, parent_path};
use crate::phases::{source_views, ConfigSourceRecord, PgoPrerequisites, ToolIdentity};
use crate::shim::{find_value, value_from, value_of};
use crate::text::{lossy, lossy_text, text2, text3, text4, trim, trimmed, utf8_text};
use crate::tools::{
    compiler_outcome, identity_outcome, resolve_real_rustc, resolve_tools, CompilerSearch,
    ExecutableProbe, IdentityProbe,
};

verus! {

/// The bytes of output that a tool may print.
pub const TOOL_OUTPUT_LIMIT: usize = 65_536;

pub const LLVM_TOOLS_HINT: &'static str =
    "Install the matching component with `rustup component add llvm-tools-preview`.";

/// Why PGO is rejected before any stage is built.
#[derive(Debug)]
pub struct PgoPrerequisiteFailure {
    pub reason: &'static str,
    pub message: String,
    pub remediation: Option<&'static str>,
}

/// A reason, a message, and whether installing the LLVM tools may help.
pub struct PrerequisiteRefusal {
    pub reason: Seq<char>,
    pub message: Seq<char>,
    pub hint: bool,
}

impl View for PgoPrerequisiteFailure {
    type V = PrerequisiteRefusal;

    open spec fn view(&self) -> PrerequisiteRefusal {
        PrerequisiteRefusal {
            reason: self.reason@,
            message: self.message@,
            hint: self.remediation is Some,
        }
    }
}

/// A refusal that nothing remedies.
pub open spec fn refused(reason: Seq<char>, message: Seq<char>) -> PrerequisiteRefusal {
    PrerequisiteRefusal { reason, message, hint: false }
}

/// A refusal that installing the LLVM tools may remedy.
pub open spec fn hinted(reason: Seq<char>, message: Seq<char>) -> PrerequisiteRefusal {
    PrerequisiteRefusal { reason, message, hint: true }
}

/// Whether a failure gives the one remedy there is, if it gives any.
pub open spec fn remedies_known(failure: PgoPrerequisiteFailure) -> bool {
    failure.remediation is Some ==> failure.remediation->0@ == LLVM_TOOLS_HINT@
}

fn refuse(reason: &'static str, message: String) -> (failure: PgoPrerequisiteFailure)
    ensures
        failure@ == refused(reason@, message@),
        remedies_known(failure),
{
    PgoPrerequisiteFailure { reason, message, remediation: None }
}

fn refuse_with_hint(reason: &'static str, message: String) -> (failure: PgoPrerequisiteFailure)
    ensures
        failure@ == hinted(reason@, message@),
        remedies_known(failure),
{
    PgoPrerequisiteFailure { reason, message, remediation: Some(LLVM_TOOLS_HINT) }
}

/// The variables that put another program in the compiler's place.
pub open spec fn override_variables() -> Seq<Seq<char>> {
    seq![
        "CARGO_BUILD_RUSTC"@,
        "RUSTC_WRAPPER"@,
        "RUSTC_WORKSPACE_WRAPPER"@,
        "CARGO_BUILD_RUSTC_WRAPPER"@,
        "CARGO_BUILD_RUSTC_WORKSPACE_WRAPPER"@,
    ]
}

/// Whether a variable is set to something.
pub open spec fn is_set(variables: Seq<(Seq<u8>, Seq<u8>)>, name: Seq<char>) -> bool {
    match value_of(variables, name) {
        Some(value) => value.len() > 0,
        None => false,
    }
}

/// The first of the names, at or after `from`, that is set to something.
pub open spec fn first_set(
    variables: Seq<(Seq<u8>, Seq<u8>)>,
    names: Seq<Seq<char>>,
    from: int,
) -> Option<Seq<char>>
    decreases names.len() - from,
{
    if from < 0 || from >= names.len() {
        None
    } else if is_set(variables, names[from]) {
        Some(names[from])
    } else {
        first_set(variables, names, from + 1)
    }
}

/// Finds the first variable that overrides the compiler.
pub fn ambient_override(variables: &Vec<Variable>) -> (found: Option<&'static str>)
    ensures
        match found {
            Some(name) => first_set(variable_pairs(variables@), override_variables(), 0) == Some(
                name@,
            ),
            None => first_set(variable_pairs(variables@), override_variables(), 0) is None,
        },
{
    let mut names: Vec<&'static str> = Vec::new();
    names.push("CARGO_BUILD_RUSTC");
    names.push("RUSTC_WRAPPER");
    names.push("RUSTC_WORKSPACE_WRAPPER");
    names.push("CARGO_BUILD_RUSTC_WRAPPER");
    names.push("CARGO_BUILD_RUSTC_WORKSPACE_WRAPPER");
    let ghost wanted = override_variables();
    let ghost pairs = variable_pairs(variables@);
    assert forall|i: int| 0 <= i < 5 implies (#[trigger] names@[i])@ == wanted[i] by {}
    let mut index: usize = 0;
    while index < names.len()
        invariant
            index <= names@.len() == 5,
            wanted == override_variables(),
            wanted.len() == 5,
            pairs == variable_pairs(variables@),
            forall|i: int| 0 <= i < 5 ==> (#[trigger] names@[i])@ == wanted[i],
            first_set(pairs, wanted, 0) == first_set(pairs, wanted, index as int),
        decreases names@.len() - index,
    {
        let set: bool = match find_value(variables, names[index]) {
            Some(value) => value.len() > 0,
            None => false,
        };
        if set {
            return Some(names[index]);
        }
        index = index + 1;
    }
    None
}

/// What running a tool gave.
#[derive(Debug)]
pub enum ToolProbe {
    NotStarted,
    Failed,
    Printed(Vec<u8>),
}

/// The identity that a tool printed, or why there is none.
pub open spec fn version_of(probe: ToolProbe, name: Seq<char>) -> Result<Seq<char>, Seq<char>> {
    match probe {
        ToolProbe::NotStarted => Err(name + " identity probe could not start."@),
        ToolProbe::Failed => Err(name + " identity probe failed."@),
        ToolProbe::Printed(output) => if output@.len() > TOOL_OUTPUT_LIMIT {
            Err(name + " identity output exceeded 64 KiB."@)
        } else if !valid_utf8(output@) {
            Err(name + " identity output was not valid UTF-8."@)
        } else {
            Ok(trimmed(decode_utf8(output@)))
        },
    }
}

/// Reads the identity that a tool printed.
pub fn tool_version(probe: &ToolProbe, name: &str) -> (version: Result<String, String>)
    ensures
        match version {
            Ok(text) => version_of(*probe, name@) == Ok::<Seq<char>, Seq<char>>(text@),
            Err(message) => version_of(*probe, name@) == Err::<Seq<char>, Seq<char>>(message@),
        },
{
    match probe {
        ToolProbe::NotStarted => Err(text2(name, " identity probe could not start.")),
        ToolProbe::Failed => Err(text2(name, " identity probe failed.")),
        ToolProbe::Printed(output) => {
            if output.len() > TOOL_OUTPUT_LIMIT {
                return Err(text2(name, " identity output exceeded 64 KiB."));
            }
            match utf8_text(output.as_slice()) {
                Some(text) => Ok(trim(text)),
                None => Err(text2(name, " identity output was not valid UTF-8.")),
            }
        },
    }
}

/// The library directory that rustc printed, or why there is none.
pub open spec fn printed_libdir(probe: ToolProbe) -> Result<Seq<char>, Seq<char>> {
    match probe {
        ToolProbe::NotStarted => Err("The active rustc target-libdir probe could not start."@),
        ToolProbe::Failed => Err("The active rustc could not report its target-libdir."@),
        ToolProbe::Printed(output) => if output@.len() > TOOL_OUTPUT_LIMIT {
            Err("rustc target-libdir output exceeded 64 KiB."@)
        } else if !valid_utf8(output@) {
            Err("rustc target-libdir was not valid UTF-8."@)
        } else {
            Ok(trimmed(decode_utf8(output@)))
        },
    }
}

/// Reads the library directory that rustc printed.
pub fn reported_libdir(probe: &ToolProbe) -> (path: Result<String, String>)
    ensures
        match path {
            Ok(text) => printed_libdir(*probe) == Ok::<Seq<char>, Seq<char>>(text@),
            Err(message) => printed_libdir(*probe) == Err::<Seq<char>, Seq<char>>(message@),
        },
{
    match probe {
        ToolProbe::NotStarted => Err(
            "The active rustc target-libdir probe could not start.".to_owned(),
        ),
        ToolProbe::Failed => Err("The active rustc could not report its target-libdir.".to_owned()),
        ToolProbe::Printed(output) => {
            if output.len() > TOOL_OUTPUT_LIMIT {
                return Err("rustc target-libdir output exceeded 64 KiB.".to_owned());
            }
            match utf8_text(output.as_slice()) {
                Some(text) => Ok(trim(text)),
                None => Err("rustc target-libdir was not valid UTF-8.".to_owned()),
            }
        },
    }
}

/// The canonical library directory of the active rustc, or why there is none.
pub open spec fn libdir_of(probe: ToolProbe, canonical: Result<Vec<u8>, String>) -> Result<
    Seq<u8>,
    Seq<char>,
> {
    match printed_libdir(probe) {
        Err(message) => Err(message),
        Ok(_) => match canonical {
            Ok(path) => Ok(path@),
            Err(error) => Err("rustc target-libdir could not be canonicalized: "@ + error@),
        },
    }
}

/// The library directory of the active rustc, where `canonical` is the canonical path of what it
/// printed.
pub fn rustc_target_libdir(probe: &ToolProbe, canonical: &Result<Vec<u8>, String>) -> (path: Result<
    Vec<u8>,
    String,
>)
    ensures
        match path {
            Ok(found) => libdir_of(*probe, *canonical) == Ok::<Seq<u8>, Seq<char>>(found@),
            Err(message) => libdir_of(*probe, *canonical) == Err::<Seq<u8>, Seq<char>>(message@),
        },
{
    match reported_libdir(probe) {
        Err(message) => Err(message),
        Ok(_) => match canonical {
            Ok(path) => Ok(path.clone()),
            Err(error) => Err(
                text2("rustc target-libdir could not be canonicalized: ", error.as_str()),
            ),
        },
    }
}

/// Where the profiling tool of a toolchain lies.
pub open spec fn profdata_path(target_libdir: Seq<u8>) -> Option<Seq<u8>> {
    match parent_path(target_libdir) {
        Some(root) => Some(
            join_path(join_path(root, encode_utf8("bin"@)), encode_utf8("llvm-profdata"@)),
        ),
        None => None,
    }
}

/// Where the profiling tool of a toolchain lies.
pub fn llvm_profdata_candidate(target_libdir: &[u8]) -> (path: Option<Vec<u8>>)
    ensures
        match path {
            Some(found) => profdata_path(target_libdir@) == Some(found@),
            None => profdata_path(target_libdir@) is None,
        },
{
    match parent(target_libdir) {
        Some(root) => Some(
            join(
                join(root.as_slice(), "bin".as_bytes()).as_slice(),
                "llvm-profdata".as_bytes(),
            ),
        ),
        None => None,
    }
}

/// What the file system says of one discovered Cargo config file.
#[derive(Debug)]
pub struct ConfigProbe {
    pub path: Vec<u8>,
    /// Its text, or why it could not be read.
    pub contents: Result<String, String>,
    /// Its digest, or why it could not be hashed.
    pub sha256: Result<String, String>,
}

/// Why a config file is refused.
pub open spec fn config_refusal(probe: ConfigProbe) -> Option<PrerequisiteRefusal> {
    match probe.contents {
        Err(error) => Some(
            refused(
                "cargo_config_read_failed"@,
                "Cargo config "@ + lossy_text(probe.path@) + " could not be read: "@ + error@,
            ),
        ),
        Ok(contents) => match probe.sha256 {
            Err(error) => Some(refused("cargo_config_hash_failed"@, error@)),
            Ok(_) => match toml_document(contents@) {
                Err(error) => Some(
                    refused(
                        "cargo_config_parse_failed"@,
                        "Cargo config "@ + lossy_text(probe.path@) + " could not be parsed: "@
                            + error,
                    ),
                ),
                Ok(document) => match override_outcome(document, probe.path@) {
                    Some(found) => Some(
                        refused("unproven_compiler_override"@, found.message),
                    ),
                    None => None,
                },
            },
        },
    }
}

/// The config sources among the first `count` probes, or the first refusal.
pub open spec fn inspected(probes: Seq<ConfigProbe>, count: int) -> Result<
    Seq<(Seq<u8>, Seq<char>)>,
    PrerequisiteRefusal,
>
    decreases count,
{
    if count <= 0 {
        Ok(Seq::empty())
    } else {
        match inspected(probes, count - 1) {
            Err(found) => Err(found),
            Ok(earlier) => {
                let probe = probes[count - 1];
                match config_refusal(probe) {
                    Some(found) => Err(found),
                    None => Ok(earlier.push((probe.path@, probe.sha256->Ok_0@))),
                }
            },
        }
    }
}

proof fn lemma_inspected_prefix(probes: Seq<ConfigProbe>, shorter: int, longer: int)
    requires
        0 <= shorter <= longer,
        inspected(probes, shorter) is Err,
    ensures
        inspected(probes, longer) == inspected(probes, shorter),
    decreases longer - shorter,
{
    if shorter < longer {
        lemma_inspected_prefix(probes, shorter, longer - 1);
    }
}

fn inspect_config(probe: &ConfigProbe) -> (source: Result<
    ConfigSourceRecord,
    PgoPrerequisiteFailure,
>)
    ensures
        match source {
            Ok(found) => {
                &&& config_refusal(*probe) is None
                &&& found.path@ == probe.path@
                &&& found.sha256@ == probe.sha256->Ok_0@
            },
            Err(failure) => config_refusal(*probe) == Some(failure@) && remedies_known(failure),
        },
{
    let shown = lossy(probe.path.as_slice());
    let contents = match &probe.contents {
        Ok(contents) => contents,
        Err(error) => return Err(
            refuse(
                "cargo_config_read_failed",
                text4("Cargo config ", shown.as_str(), " could not be read: ", error.as_str()),
            ),
        ),
    };
    let sha256 = match &probe.sha256 {
        Ok(digest) => digest.clone(),
        Err(error) => return Err(refuse("cargo_config_hash_failed", error.clone())),
    };
    let document = match read_document(contents.as_str()) {
        Ok(document) => document,
        Err(error) => return Err(
            refuse(
                "cargo_config_parse_failed",
                text4("Cargo config ", shown.as_str(), " could not be parsed: ", error.as_str()),
            ),
        ),
    };
    match reject_compiler_override(&document, probe.path.as_slice()) {
        Ok(_) => Ok(ConfigSourceRecord { path: probe.path.clone(), sha256 }),
        Err(found) => Err(refuse("unproven_compiler_override", found.message)),
    }
}

/// Records the directly discovered Cargo config sources and rejects a compiler override declared
/// in any of them. Config values are never merged: Cargo keeps ownership of effective rustflags.
pub fn inspect_config_sources(probes: &Vec<ConfigProbe>) -> (sources: Result<
    Vec<ConfigSourceRecord>,
    PgoPrerequisiteFailure,
>)
    ensures
        match sources {
            Ok(found) => inspected(probes@, probes@.len() as int) == Ok::<
                Seq<(Seq<u8>, Seq<char>)>,
                PrerequisiteRefusal,
            >(source_views(found@)),
            Err(failure) => inspected(probes@, probes@.len() as int) == Err::<
                Seq<(Seq<u8>, Seq<char>)>,
                PrerequisiteRefusal,
            >(failure@) && remedies_known(failure),
        },
{
    let mut sources: Vec<ConfigSourceRecord> = Vec::new();
    let mut index: usize = 0;
    assert(source_views(sources@) =~= Seq::<(Seq<u8>, Seq<char>)>::empty());
    while index < probes.len()
        invariant
            index <= probes@.len(),
            inspected(probes@, index as int) == Ok::<
                Seq<(Seq<u8>, Seq<char>)>,
                PrerequisiteRefusal,
            >(source_views(sources@)),
        decreases probes@.len() - index,
    {
        match inspect_config(&probes[index]) {
            Ok(source) => {
                let ghost known = sources@;
                sources.push(source);
                assert(source_views(sources@) =~= source_views(known).push(
                    (source.path@, source.sha256@),
                ));
            },
            Err(failure) => {
                proof {
                    lemma_inspected_prefix(probes@, index + 1, probes@.len() as int);
                }
                return Err(failure);
            },
        }
        index = index + 1;
    }
    Ok(sources)
}

/// What the file system says of the profiling tool.
#[derive(Debug)]
pub struct ProfdataProbe {
    /// Whether it is a regular file, and its mode, where it can be inspected.
    pub metadata: Option<(bool, u32)>,
    pub canonical: Result<Vec<u8>, String>,
    pub version: ToolProbe,
    pub sha256: Result<String, String>,
}

/// Everything that the proof of the PGO boundary rests on.
#[derive(Debug)]
pub struct PrerequisiteFacts {
    pub variables: Vec<Variable>,
    pub configs: Vec<ConfigProbe>,
    pub libdir: ToolProbe,
    pub canonical_libdir: Result<Vec<u8>, String>,
    pub profdata: ProfdataProbe,
    pub cargo_version: ToolProbe,
    pub rustc_version: ToolProbe,
    pub shim: ExecutableProbe,
    pub compiler: CompilerSearch,
    pub identity: IdentityProbe,
}

/// The canonical path of an executable profiling tool, or why there is none.
pub open spec fn profdata_outcome(target_libdir: Seq<u8>, probe: ProfdataProbe) -> Result<
    Seq<u8>,
    PrerequisiteRefusal,
> {
    match profdata_path(target_libdir) {
        None => Err(
            hinted(
                "llvm_profdata_unavailable"@,
                "rustc target-libdir has no toolchain target parent directory."@,
            ),
        ),
        Some(path) => match probe.metadata {
            None => Err(
                hinted(
                    "llvm_profdata_unavailable"@,
                    "The active rustc has no adjacent executable llvm-profdata at "@ + lossy_text(
                        path,
                    ) + "."@,
                ),
            ),
            Some(metadata) => if !metadata.0 || metadata.1 & 0o111 == 0 {
                Err(
                    hinted(
                        "llvm_profdata_unavailable"@,
                        "The llvm-profdata adjacent to the active rustc is not executable: "@
                            + lossy_text(path) + "."@,
                    ),
                )
            } else {
                match probe.canonical {
                    Ok(canonical) => Ok(canonical@),
                    Err(error) => Err(
                        hinted(
                            "llvm_profdata_unavailable"@,
                            "Could not canonicalize toolchain llvm-profdata: "@ + error@,
                        ),
                    ),
                }
            },
        },
    }
}

fn find_profdata(target_libdir: &[u8], probe: &ProfdataProbe) -> (path: Result<
    Vec<u8>,
    PgoPrerequisiteFailure,
>)
    ensures
        match path {
            Ok(found) => profdata_outcome(target_libdir@, *probe) == Ok::<
                Seq<u8>,
                PrerequisiteRefusal,
            >(found@),
            Err(failure) => profdata_outcome(target_libdir@, *probe) == Err::<
                Seq<u8>,
                PrerequisiteRefusal,
            >(failure@) && remedies_known(failure),
        },
{
    let path = match llvm_profdata_candidate(target_libdir) {
        Some(path) => path,
        None => return Err(
            refuse_with_hint(
                "llvm_profdata_unavailable",
                "rustc target-libdir has no toolchain target parent directory.".to_owned(),
            ),
        ),
    };
    let shown = lossy(path.as_slice());
    let (regular, mode): (bool, u32) = match probe.metadata {
        Some(metadata) => metadata,
        None => return Err(
            refuse_with_hint(
                "llvm_profdata_unavailable",
                text3(
                    "The active rustc has no adjacent executable llvm-profdata at ",
                    shown.as_str(),
                    ".",
                ),
            ),
        ),
    };
    if !regular || mode & 0o111 == 0 {
        return Err(
            refuse_with_hint(
                "llvm_profdata_unavailable",
                text3(
                    "The llvm-profdata adjacent to the active rustc is not executable: ",
                    shown.as_str(),
                    ".",
                ),
            ),
        );
    }
    match &probe.canonical {
        Ok(canonical) => Ok(canonical.clone()),
        Err(error) => Err(
            refuse_with_hint(
                "llvm_profdata_unavailable",
                text2("Could not canonicalize toolchain llvm-profdata: ", error.as_str()),
            ),
        ),
    }
}

/// What is proved of the PGO boundary, as sequences.
pub struct PrerequisitesView {
    pub llvm_profdata_path: Seq<u8>,
    pub target_libdir: Seq<u8>,
    pub tools: ShimToolsView,
    pub sources: Seq<(Seq<u8>, Seq<char>)>,
    pub cargo_version: Seq<char>,
    pub rustc_version: Seq<char>,
    pub llvm_profdata_version: Seq<char>,
    pub llvm_profdata_sha256: Seq<char>,
}

/// The tools of the boundary, once the profiling tool and the sources are known, or why the
/// boundary is refused.
pub open spec fn identified(
    facts: PrerequisiteFacts,
    sources: Seq<(Seq<u8>, Seq<char>)>,
    target_libdir: Seq<u8>,
    llvm_profdata_path: Seq<u8>,
) -> Result<PrerequisitesView, PrerequisiteRefusal> {
    match version_of(facts.cargo_version, "Cargo"@) {
        Err(message) => Err(refused("cargo_identity_failed"@, message)),
        Ok(cargo_version) => match version_of(facts.rustc_version, "rustc"@) {
            Err(message) => Err(refused("rustc_identity_failed"@, message)),
            Ok(rustc_version) => match version_of(facts.profdata.version, "llvm-profdata"@) {
                Err(message) => Err(hinted("llvm_profdata_identity_failed"@, message)),
                Ok(llvm_profdata_version) => match facts.profdata.sha256 {
                    Err(error) => Err(hinted("llvm_profdata_identity_failed"@, error@)),
                    Ok(digest) => match found_tools(facts, rustc_version) {
                        Err(message) => Err(
                            refused("compiler_interposition_unavailable"@, message),
                        ),
                        Ok(tools) => Ok(
                            PrerequisitesView {
                                llvm_profdata_path,
                                target_libdir,
                                tools,
                                sources,
                                cargo_version,
                                rustc_version,
                                llvm_profdata_version,
                                llvm_profdata_sha256: digest@,
                            },
                        ),
                    },
                },
            },
        },
    }
}

/// The shim and the real compiler, whose identity must be `rustc_version`. They are resolved
/// before any process-local `RUSTC` override, so the shim can never resolve itself.
pub open spec fn found_tools(facts: PrerequisiteFacts, rustc_version: Seq<char>) -> Result<
    ShimToolsView,
    Seq<char>,
> {
    match facts.shim.canonical {
        Err(error) => Err("The Temper executable could not be resolved: "@ + error@),
        Ok(executable) => if !facts.shim.regular {
            Err("The Temper executable is not a regular file."@)
        } else {
            match compiler_outcome(facts.compiler) {
                Err(message) => Err(message),
                Ok(compiler) => identity_outcome(
                    executable@,
                    compiler,
                    facts.identity,
                    rustc_version,
                ),
            }
        },
    }
}

/// The PGO boundary, or why it is refused.
pub open spec fn prerequisites_outcome(facts: PrerequisiteFacts) -> Result<
    PrerequisitesView,
    PrerequisiteRefusal,
> {
    match first_set(variable_pairs(facts.variables@), override_variables(), 0) {
        Some(name) => Err(
            refused(
                "ambient_compiler_override"@,
                "PGO was rejected because "@ + name
                    + " is set and Temper cannot prove that an outer compiler cache keys its PGO phase controls."@,
            ),
        ),
        None => match inspected(facts.configs@, facts.configs@.len() as int) {
            Err(found) => Err(found),
            Ok(sources) => match libdir_of(facts.libdir, facts.canonical_libdir) {
                Err(message) => Err(refused("rustc_target_libdir_failed"@, message)),
                Ok(target_libdir) => match profdata_outcome(target_libdir, facts.profdata) {
                    Err(found) => Err(found),
                    Ok(path) => identified(facts, sources, target_libdir, path),
                },
            },
        },
    }
}

/// What prerequisites say.
pub open spec fn prerequisites_view(found: PgoPrerequisites) -> PrerequisitesView {
    PrerequisitesView {
        llvm_profdata_path: found.llvm_profdata_path@,
        target_libdir: found.target_libdir@,
        tools: ShimToolsView {
            shim_executable: found.shim_executable@,
            shim_sha256: found.shim_sha256@,
            real_rustc: found.real_rustc@,
            real_rustc_version: found.real_rustc_version@,
        },
        sources: source_views(found.inspected_config_sources@),
        cargo_version: found.tool_identity.cargo_version@,
        rustc_version: found.tool_identity.rustc_version@,
        llvm_profdata_version: found.tool_identity.llvm_profdata_version@,
        llvm_profdata_sha256: found.tool_identity.llvm_profdata_sha256@,
    }
}

/// Proves the PGO boundary before any compiler interposition starts.
pub fn prove_pgo_prerequisites(facts: PrerequisiteFacts) -> (prerequisites: Result<
    PgoPrerequisites,
    PgoPrerequisiteFailure,
>)
    ensures
        match prerequisites {
            Ok(found) => {
                &&& prerequisites_outcome(facts) == Ok::<PrerequisitesView, PrerequisiteRefusal>(
                    prerequisites_view(found),
                )
                &&& found.shim_protocol@ == PROTOCOL@
                &&& found.tool_identity.llvm_profdata_path@ == found.llvm_profdata_path@
            },
            Err(failure) => prerequisites_outcome(facts) == Err::<
                PrerequisitesView,
                PrerequisiteRefusal,
            >(failure@) && remedies_known(failure),
        },
{
    if let Some(name) = ambient_override(&facts.variables) {
        return Err(
            refuse(
                "ambient_compiler_override",
                text3(
                    "PGO was rejected because ",
                    name,
                    " is set and Temper cannot prove that an outer compiler cache keys its PGO phase controls.",
                ),
            ),
        );
    }
    let inspected_config_sources = match inspect_config_sources(&facts.configs) {
        Ok(sources) => sources,
        Err(failure) => return Err(failure),
    };
    let target_libdir = match rustc_target_libdir(&facts.libdir, &facts.canonical_libdir) {
        Ok(path) => path,
        Err(message) => return Err(refuse("rustc_target_libdir_failed", message)),
    };
    let llvm_profdata_path = match find_profdata(target_libdir.as_slice(), &facts.profdata) {
        Ok(path) => path,
        Err(failure) => return Err(failure),
    };
    let cargo_version = match tool_version(&facts.cargo_version, "Cargo") {
        Ok(version) => version,
        Err(message) => return Err(refuse("cargo_identity_failed", message)),
    };
    let rustc_version = match tool_version(&facts.rustc_version, "rustc") {
        Ok(version) => version,
        Err(message) => return Err(refuse("rustc_identity_failed", message)),
    };
    let llvm_profdata_version = match tool_version(&facts.profdata.version, "llvm-profdata") {
        Ok(version) => version,
        Err(message) => return Err(refuse_with_hint("llvm_profdata_identity_failed", message)),
    };
    let llvm_profdata_sha256 = match facts.profdata.sha256 {
        Ok(digest) => digest,
        Err(error) => return Err(refuse_with_hint("llvm_profdata_identity_failed", error)),
    };
    let compiler = resolve_real_rustc(&facts.compiler);
    let tools = match resolve_tools(
        facts.shim,
        compiler,
        &facts.identity,
        rustc_version.as_str(),
    ) {
        Ok(tools) => tools,
        Err(message) => return Err(refuse("compiler_interposition_unavailable", message)),
    };
    let profdata_copy = llvm_profdata_path.clone();
    Ok(
        PgoPrerequisites {
            llvm_profdata_path,
            target_libdir,
            real_rustc: tools.real_rustc,
            real_rustc_version: tools.real_rustc_version,
            shim_executable: tools.shim_executable,
            shim_sha256: tools.shim_sha256,
            shim_protocol: PROTOCOL,
            inspected_config_sources,
            tool_identity: ToolIdentity {
                cargo_version,
                rustc_version,
                llvm_profdata_path: profdata_copy,
                llvm_profdata_sha256,
                llvm_profdata_version,
            },
        },
    )
}

/// A proved boundary has no compiler override: none of the override variables is set, and no
/// inspected config file declares one.
pub proof fn law_proved_boundaries_have_no_override(facts: PrerequisiteFacts)
    requires
        prerequisites_outcome(facts) is Ok,
    ensures
        forall|i: int|
            0 <= i < override_variables().len() ==> !is_set(
                variable_pairs(facts.variables@),
                #[trigger] override_variables()[i],
            ),
        forall|i: int|
            0 <= i < facts.configs@.len() ==> config_refusal(#[trigger] facts.configs@[i]) is None,
        prerequisites_outcome(facts)->Ok_0.sources.len() == facts.configs@.len(),
{
    let pairs = variable_pairs(facts.variables@);
    assert forall|i: int| 0 <= i < override_variables().len() implies !is_set(
        pairs,
        #[trigger] override_variables()[i],
    ) by {
        lemma_none_set(pairs, override_variables(), 0, i);
    }
    assert forall|i: int| 0 <= i < facts.configs@.len() implies config_refusal(
        #[trigger] facts.configs@[i],
    ) is None by {
        if config_refusal(facts.configs@[i]) is Some {
            if inspected(facts.configs@, i) is Ok {
                assert(inspected(facts.configs@, i + 1) is Err);
            } else {
                lemma_inspected_prefix(facts.configs@, i, i + 1);
            }
            lemma_inspected_prefix(facts.configs@, i + 1, facts.configs@.len() as int);
        }
    }
    lemma_inspected_len(facts.configs@, facts.configs@.len() as int);
}

proof fn lemma_none_set(
    variables: Seq<(Seq<u8>, Seq<u8>)>,
    names: Seq<Seq<char>>,
    from: int,
    index: int,
)
    requires
        0 <= from <= index < names.len(),
        first_set(variables, names, from) is None,
    ensures
        !is_set(variables, names[index]),
    decreases index - from,
{
    if from < index {
        lemma_none_set(variables, names, from + 1, index);
    }
}

proof fn lemma_inspected_len(probes: Seq<ConfigProbe>, count: int)
    requires
        0 <= count,
        inspected(probes, count) is Ok,
    ensures
        inspected(probes, count)->Ok_0.len() == count,
    decreases count,
{
    if count > 0 {
        lemma_inspected_len(probes, count - 1);
    }
}

/// Whether a variable is given first at `index`, with some value.
pub open spec fn overrides_at(
    variables: Seq<(Seq<u8>, Seq<u8>)>,
    name: Seq<char>,
    index: int,
) -> bool {
    &&& 0 <= index < variables.len()
    &&& variables[index].0 == encode_utf8(name)
    &&& variables[index].1.len() > 0
    &&& forall|earlier: int|
        0 <= earlier < index ==> (#[trigger] variables[earlier]).0 != encode_utf8(name)
}

proof fn lemma_overridden(
    variables: Seq<(Seq<u8>, Seq<u8>)>,
    name: Seq<char>,
    from: int,
    index: int,
)
    requires
        0 <= from <= index,
        overrides_at(variables, name, index),
    ensures
        value_from(variables, encode_utf8(name), from) == Some(variables[index].1),
    decreases index - from,
{
    if from < index {
        assert(variables[from].0 != encode_utf8(name));
        lemma_overridden(variables, name, from + 1, index);
    }
}

/// A boundary is refused wherever one of the five variables that replace or wrap the compiler is
/// set to something, and that is the reason it gives.
pub proof fn law_ambient_overrides_are_refused(
    facts: PrerequisiteFacts,
    name: Seq<char>,
    index: int,
)
    requires
        name == "CARGO_BUILD_RUSTC"@ || name == "RUSTC_WRAPPER"@ || name
            == "RUSTC_WORKSPACE_WRAPPER"@ || name == "CARGO_BUILD_RUSTC_WRAPPER"@ || name
            == "CARGO_BUILD_RUSTC_WORKSPACE_WRAPPER"@,
        overrides_at(variable_pairs(facts.variables@), name, index),
    ensures
        prerequisites_outcome(facts) is Err,
        prerequisites_outcome(facts)->Err_0.reason == "ambient_compiler_override"@,
{
    let pairs = variable_pairs(facts.variables@);
    let names = override_variables();
    lemma_overridden(pairs, name, 0, index);
    assert(is_set(pairs, name));
    assert(names.len() == 5);
    let place = if name == "CARGO_BUILD_RUSTC"@ {
        0int
    } else if name == "RUSTC_WRAPPER"@ {
        1
    } else if name == "RUSTC_WORKSPACE_WRAPPER"@ {
        2
    } else if name == "CARGO_BUILD_RUSTC_WRAPPER"@ {
        3
    } else {
        4
    };
    assert(names[place] == name);
    if first_set(pairs, names, 0) is None {
        lemma_none_set(pairs, names, 0, place);
    }
}

proof fn lemma_inspected_sources(probes: Seq<ConfigProbe>, count: int, index: int)
    requires
        0 <= index < count <= probes.len(),
        inspected(probes, count) is Ok,
    ensures
        inspected(probes, count)->Ok_0.len() == count,
        probes[index].contents is Ok,
        probes[index].sha256 is Ok,
        inspected(probes, count)->Ok_0[index] == (probes[index].path@, probes[index].sha256->Ok_0@),
    decreases count,
{
    lemma_inspected_len(probes, count);
    if index < count - 1 {
        lemma_inspected_sources(probes, count - 1, index);
        lemma_inspected_len(probes, count - 1);
    } else {
        lemma_inspected_len(probes, count - 1);
    }
}

/// A proved boundary reports every config file with its digest, in order, the tools that lie in
/// their places, and the versions that they printed; the real compiler is the one that was probed.
pub proof fn law_boundaries_report_what_was_proved(facts: PrerequisiteFacts)
    requires
        prerequisites_outcome(facts) is Ok,
    ensures
        ({
            let found = prerequisites_outcome(facts)->Ok_0;
            &&& found.sources.len() == facts.configs@.len()
            &&& forall|i: int|
                0 <= i < facts.configs@.len() ==> (#[trigger] facts.configs@[i]).sha256 is Ok
                    && found.sources[i] == (
                    facts.configs@[i].path@,
                    facts.configs@[i].sha256->Ok_0@,
                )
            &&& facts.canonical_libdir is Ok && found.target_libdir
                == facts.canonical_libdir->Ok_0@
            &&& facts.profdata.metadata matches Some(metadata) && metadata.0 && metadata.1 & 0o111
                != 0
            &&& facts.profdata.canonical is Ok && found.llvm_profdata_path
                == facts.profdata.canonical->Ok_0@
            &&& facts.profdata.sha256 is Ok && found.llvm_profdata_sha256
                == facts.profdata.sha256->Ok_0@
            &&& facts.cargo_version is Printed && found.cargo_version == trimmed(
                decode_utf8(facts.cargo_version->Printed_0@),
            )
            &&& facts.rustc_version is Printed && found.rustc_version == trimmed(
                decode_utf8(facts.rustc_version->Printed_0@),
            )
            &&& facts.profdata.version is Printed && found.llvm_profdata_version == trimmed(
                decode_utf8(facts.profdata.version->Printed_0@),
            )
            &&& facts.shim.canonical is Ok && facts.shim.regular && found.tools.shim_executable
                == facts.shim.canonical->Ok_0@
            &&& compiler_outcome(facts.compiler) == Ok::<Seq<u8>, Seq<char>>(found.tools.real_rustc)
            &&& facts.identity.shim_sha256 is Ok && found.tools.shim_sha256
                == facts.identity.shim_sha256->Ok_0@
            &&& found.tools.real_rustc_version == trimmed(found.rustc_version)
        }),
{
    let found = prerequisites_outcome(facts)->Ok_0;
    let count = facts.configs@.len() as int;
    lemma_inspected_len(facts.configs@, count);
    assert forall|i: int| 0 <= i < facts.configs@.len() implies (
    #[trigger] facts.configs@[i]).sha256 is Ok && found.sources[i] == (
        facts.configs@[i].path@,
        facts.configs@[i].sha256->Ok_0@,
    ) by {
        lemma_inspected_sources(facts.configs@, count, i);
    }
}

} // verus!
