//! The projected inputs of the PGO phases, and their parity.

use vstd::prelude::*;
use vstd::string::*;

use crate::cargo::{build_words, planned_invocation, shown, SelectionView, TargetSelection};
use crate::interposition::{
    identifiers_of, ShimStage, ShimTools, MISSING_FUNCTION_FLAG, PROFILE_GENERATE_FLAG,
    PROFILE_USE_FLAG, SUPPORTED_HOST,
};
use crate::paths::{parts, same_path};
use crate::strategy::BuildPlan;
use crate::text::{copy_texts, same_text, same_texts, texts};

verus! {

/// One inspected Cargo config file.
#[derive(Debug)]
pub struct ConfigSourceRecord {
    pub path: Vec<u8>,
    pub sha256: String,
}

/// What identifies a config source: the components of its path, and its digest.
pub open spec fn source_key(source: ConfigSourceRecord) -> (Seq<Seq<u8>>, Seq<char>) {
    (parts(source.path@), source.sha256@)
}

/// What identifies each of the config sources.
pub open spec fn source_keys(sources: Seq<ConfigSourceRecord>) -> Seq<
    (Seq<Seq<u8>>, Seq<char>),
> {
    sources.map_values(|source: ConfigSourceRecord| source_key(source))
}

/// Paths and digests of the config sources, as they were recorded.
pub open spec fn source_views(sources: Seq<ConfigSourceRecord>) -> Seq<(Seq<u8>, Seq<char>)> {
    sources.map_values(|source: ConfigSourceRecord| (source.path@, source.sha256@))
}

fn same_sources(left: &Vec<ConfigSourceRecord>, right: &Vec<ConfigSourceRecord>) -> (same: bool)
    ensures
        same == (source_keys(left@) == source_keys(right@)),
{
    if left.len() != right.len() {
        assert(source_keys(left@).len() != source_keys(right@).len());
        return false;
    }
    let mut index: usize = 0;
    while index < left.len()
        invariant
            index <= left@.len() == right@.len(),
            forall|i: int| 0 <= i < index ==> source_key(left@[i]) == source_key(right@[i]),
        decreases left@.len() - index,
    {
        if !same_path(left[index].path.as_slice(), right[index].path.as_slice()) || !same_text(
            left[index].sha256.as_str(),
            right[index].sha256.as_str(),
        ) {
            proof {
                assert(source_keys(left@)[index as int] == source_key(left@[index as int]));
                assert(source_keys(right@)[index as int] == source_key(right@[index as int]));
            }
            return false;
        }
        index = index + 1;
    }
    assert(source_keys(left@) =~= source_keys(right@));
    true
}

/// A copy of the config sources.
pub fn copy_sources(sources: &Vec<ConfigSourceRecord>) -> (copy: Vec<ConfigSourceRecord>)
    ensures
        source_views(copy@) == source_views(sources@),
        source_keys(copy@) == source_keys(sources@),
{
    let mut copy: Vec<ConfigSourceRecord> = Vec::new();
    let mut index: usize = 0;
    while index < sources.len()
        invariant
            index <= sources@.len(),
            copy@.len() == index,
            forall|i: int|
                0 <= i < index ==> (#[trigger] copy@[i]).path@ == sources@[i].path@
                    && copy@[i].sha256@ == sources@[i].sha256@,
        decreases sources@.len() - index,
    {
        copy.push(
            ConfigSourceRecord {
                path: sources[index].path.clone(),
                sha256: sources[index].sha256.clone(),
            },
        );
        index = index + 1;
    }
    assert(source_views(copy@) =~= source_views(sources@));
    assert(source_keys(copy@) =~= source_keys(sources@));
    copy
}

/// The tools that a phase was built with.
#[derive(Debug)]
pub struct ToolIdentity {
    pub cargo_version: String,
    pub rustc_version: String,
    pub llvm_profdata_path: Vec<u8>,
    pub llvm_profdata_sha256: String,
    pub llvm_profdata_version: String,
}

/// The tools of a phase, as sequences.
pub struct ToolIdentityView {
    pub cargo_version: Seq<char>,
    pub rustc_version: Seq<char>,
    pub llvm_profdata_path: Seq<u8>,
    pub llvm_profdata_sha256: Seq<char>,
    pub llvm_profdata_version: Seq<char>,
}

impl View for ToolIdentity {
    type V = ToolIdentityView;

    open spec fn view(&self) -> ToolIdentityView {
        ToolIdentityView {
            cargo_version: self.cargo_version@,
            rustc_version: self.rustc_version@,
            llvm_profdata_path: self.llvm_profdata_path@,
            llvm_profdata_sha256: self.llvm_profdata_sha256@,
            llvm_profdata_version: self.llvm_profdata_version@,
        }
    }
}

impl Clone for ToolIdentity {
    fn clone(&self) -> (copy: ToolIdentity)
        ensures
            copy@ == self@,
    {
        ToolIdentity {
            cargo_version: self.cargo_version.clone(),
            rustc_version: self.rustc_version.clone(),
            llvm_profdata_path: self.llvm_profdata_path.clone(),
            llvm_profdata_sha256: self.llvm_profdata_sha256.clone(),
            llvm_profdata_version: self.llvm_profdata_version.clone(),
        }
    }
}

/// Whether two phases used the same tools.
pub open spec fn same_tools(left: ToolIdentityView, right: ToolIdentityView) -> bool {
    &&& left.cargo_version == right.cargo_version
    &&& left.rustc_version == right.rustc_version
    &&& parts(left.llvm_profdata_path) == parts(right.llvm_profdata_path)
    &&& left.llvm_profdata_sha256 == right.llvm_profdata_sha256
    &&& left.llvm_profdata_version == right.llvm_profdata_version
}

fn same_tool_identity(left: &ToolIdentity, right: &ToolIdentity) -> (same: bool)
    ensures
        same == same_tools(left@, right@),
{
    same_text(left.cargo_version.as_str(), right.cargo_version.as_str()) && same_text(
        left.rustc_version.as_str(),
        right.rustc_version.as_str(),
    ) && same_path(left.llvm_profdata_path.as_slice(), right.llvm_profdata_path.as_slice())
        && same_text(left.llvm_profdata_sha256.as_str(), right.llvm_profdata_sha256.as_str())
        && same_text(left.llvm_profdata_version.as_str(), right.llvm_profdata_version.as_str())
}

/// What was proved before any compiler interposition starts.
#[derive(Debug)]
pub struct PgoPrerequisites {
    pub llvm_profdata_path: Vec<u8>,
    pub target_libdir: Vec<u8>,
    pub real_rustc: Vec<u8>,
    pub real_rustc_version: String,
    pub shim_executable: Vec<u8>,
    pub shim_sha256: String,
    pub shim_protocol: &'static str,
    pub inspected_config_sources: Vec<ConfigSourceRecord>,
    pub tool_identity: ToolIdentity,
}

impl PgoPrerequisites {
    /// The compilers that the prerequisites were proved for.
    pub fn tools(&self) -> (tools: ShimTools)
        ensures
            tools.shim_executable@ == self.shim_executable@,
            tools.shim_sha256@ == self.shim_sha256@,
            tools.real_rustc@ == self.real_rustc@,
            tools.real_rustc_version@ == self.real_rustc_version@,
    {
        ShimTools {
            shim_executable: self.shim_executable.clone(),
            shim_sha256: self.shim_sha256.clone(),
            real_rustc: self.real_rustc.clone(),
            real_rustc_version: self.real_rustc_version.clone(),
        }
    }
}

/// The inputs of one PGO phase, as they are projected before it runs.
#[derive(Debug)]
pub struct PgoPhaseInputs {
    pub package_id: String,
    pub binary_target: String,
    pub target_triple: &'static str,
    pub stage: ShimStage,
    pub cargo_arguments: Vec<String>,
    pub base_profile_overrides: Vec<String>,
    pub config_sources: Vec<ConfigSourceRecord>,
    pub cargo_identity: String,
    pub rustc_identity: String,
    pub llvm_profdata_identity: ToolIdentity,
    pub real_rustc: Vec<u8>,
    pub shim_executable: Vec<u8>,
    pub injected_flags: Vec<&'static str>,
    pub target_directory: Vec<u8>,
    pub capture_directory: Vec<u8>,
}

/// The views of a list of fixed texts.
pub open spec fn labels(values: Seq<&'static str>) -> Seq<Seq<char>> {
    values.map_values(|value: &'static str| value@)
}

/// Where a text first stands in a list, at or after `from`.
pub open spec fn text_place(values: Seq<Seq<char>>, wanted: Seq<char>, from: int) -> Option<int>
    decreases values.len() - from,
{
    if from < 0 || from >= values.len() {
        None
    } else if values[from] == wanted {
        Some(from)
    } else {
        text_place(values, wanted, from + 1)
    }
}

fn find_text(values: &Vec<String>, wanted: &str) -> (place: Option<usize>)
    ensures
        match place {
            Some(found) => text_place(texts(values@), wanted@, 0) == Some(found as int) && found
                < values@.len(),
            None => text_place(texts(values@), wanted@, 0) is None,
        },
{
    let mut index: usize = 0;
    while index < values.len()
        invariant
            index <= values@.len(),
            text_place(texts(values@), wanted@, 0) == text_place(
                texts(values@),
                wanted@,
                index as int,
            ),
        decreases values@.len() - index,
    {
        assert(texts(values@)[index as int] == values@[index as int]@);
        if same_text(values[index].as_str(), wanted) {
            return Some(index);
        }
        index = index + 1;
    }
    None
}

/// Cargo arguments with the isolated target directory left open.
pub open spec fn without_target_directory(arguments: Seq<Seq<char>>) -> Seq<Seq<char>> {
    match text_place(arguments, "--target-dir"@, 0) {
        Some(place) => if place + 1 < arguments.len() {
            arguments.update(place + 1, "<isolated-target-directory>"@)
        } else {
            arguments
        },
        None => arguments,
    }
}

/// Leaves the isolated target directory of Cargo arguments open.
pub fn normalized_cargo_arguments(arguments: &Vec<String>) -> (normalized: Vec<String>)
    ensures
        texts(normalized@) == without_target_directory(texts(arguments@)),
{
    let mut normalized = copy_texts(arguments);
    assert(normalized@.len() == texts(normalized@).len() == arguments@.len());
    if let Some(place) = find_text(arguments, "--target-dir") {
        let total: usize = normalized.len();
        if place < total - 1 {
            let ghost before = normalized@;
            let placeholder = "<isolated-target-directory>".to_owned();
            normalized.set(place + 1, placeholder);
            assert(texts(normalized@) =~= texts(before).update(place + 1, placeholder@));
        }
    }
    normalized
}

/// `name`, if it names a difference.
pub open spec fn named_if(differs: bool, name: Seq<char>) -> Seq<Seq<char>> {
    if differs {
        seq![name]
    } else {
        Seq::empty()
    }
}

/// The names of the fields in which two phases differ and must not.
pub open spec fn phase_differences(
    instrumentation: PgoPhaseInputs,
    optimization: PgoPhaseInputs,
) -> Seq<Seq<char>> {
    named_if(instrumentation.package_id@ != optimization.package_id@, "package_id"@)
        + named_if(
        instrumentation.binary_target@ != optimization.binary_target@,
        "binary_target"@,
    ) + named_if(
        instrumentation.target_triple@ != optimization.target_triple@,
        "target_triple"@,
    ) + named_if(
        without_target_directory(texts(instrumentation.cargo_arguments@))
            != without_target_directory(texts(optimization.cargo_arguments@)),
        "cargo_arguments"@,
    ) + named_if(
        texts(instrumentation.base_profile_overrides@) != texts(
            optimization.base_profile_overrides@,
        ),
        "base_profile_overrides"@,
    ) + named_if(
        source_keys(instrumentation.config_sources@) != source_keys(optimization.config_sources@),
        "config_sources"@,
    ) + named_if(
        instrumentation.cargo_identity@ != optimization.cargo_identity@,
        "cargo_identity"@,
    ) + named_if(
        instrumentation.rustc_identity@ != optimization.rustc_identity@,
        "rustc_identity"@,
    ) + named_if(
        !same_tools(
            instrumentation.llvm_profdata_identity@,
            optimization.llvm_profdata_identity@,
        ),
        "llvm_profdata_identity"@,
    ) + named_if(
        parts(instrumentation.real_rustc@) != parts(optimization.real_rustc@),
        "real_rustc"@,
    ) + named_if(
        parts(instrumentation.shim_executable@) != parts(optimization.shim_executable@),
        "shim_executable"@,
    ) + named_if(
        !is_injection_channel(instrumentation, optimization),
        "pgo_injection_channel"@,
    )
}

/// Whether the two phases receive the profiling controls that they must receive.
pub open spec fn is_injection_channel(
    instrumentation: PgoPhaseInputs,
    optimization: PgoPhaseInputs,
) -> bool {
    labels(instrumentation.injected_flags@) == seq![PROFILE_GENERATE_FLAG@] && labels(
        optimization.injected_flags@,
    ) == seq![PROFILE_USE_FLAG@, MISSING_FUNCTION_FLAG@]
}

fn push_difference(differences: &mut Vec<String>, differs: bool, name: &str)
    ensures
        texts(final(differences)@) == texts(old(differences)@) + named_if(differs, name@),
{
    if differs {
        differences.push(name.to_owned());
        assert(texts(differences@) =~= texts(old(differences)@).push(name@));
    }
    assert(texts(differences@) =~= texts(old(differences)@) + named_if(differs, name@));
}

fn has_injection_channel(
    instrumentation: &PgoPhaseInputs,
    optimization: &PgoPhaseInputs,
) -> (found: bool)
    ensures
        found == is_injection_channel(*instrumentation, *optimization),
{
    let generated: bool = instrumentation.injected_flags.len() == 1 && same_text(
        instrumentation.injected_flags[0],
        PROFILE_GENERATE_FLAG,
    );
    let used: bool = optimization.injected_flags.len() == 2 && same_text(
        optimization.injected_flags[0],
        PROFILE_USE_FLAG,
    ) && same_text(optimization.injected_flags[1], MISSING_FUNCTION_FLAG);
    proof {
        let first = labels(instrumentation.injected_flags@);
        let second = labels(optimization.injected_flags@);
        let generate = seq![PROFILE_GENERATE_FLAG@];
        let reuse = seq![PROFILE_USE_FLAG@, MISSING_FUNCTION_FLAG@];
        assert(first.len() == instrumentation.injected_flags@.len());
        assert(second.len() == optimization.injected_flags@.len());
        assert(generate.len() == 1 && generate[0] == PROFILE_GENERATE_FLAG@);
        assert(reuse.len() == 2 && reuse[0] == PROFILE_USE_FLAG@ && reuse[1]
            == MISSING_FUNCTION_FLAG@);
        if generated {
            assert(first =~= generate);
        } else if first.len() == 1 {
            assert(first[0] == instrumentation.injected_flags@[0]@);
        }
        if used {
            assert(second =~= reuse);
        } else if second.len() == 2 {
            assert(second[0] == optimization.injected_flags@[0]@);
            assert(second[1] == optimization.injected_flags@[1]@);
        }
    }
    generated && used
}

/// Names every field in which two phases differ and must not.
pub fn compare_phase_inputs(
    instrumentation: &PgoPhaseInputs,
    optimization: &PgoPhaseInputs,
) -> (differences: Vec<String>)
    ensures
        texts(differences@) == phase_differences(*instrumentation, *optimization),
{
    let mut differences: Vec<String> = Vec::new();
    assert(texts(differences@) =~= Seq::<Seq<char>>::empty());
    push_difference(
        &mut differences,
        !same_text(instrumentation.package_id.as_str(), optimization.package_id.as_str()),
        "package_id",
    );
    push_difference(
        &mut differences,
        !same_text(instrumentation.binary_target.as_str(), optimization.binary_target.as_str()),
        "binary_target",
    );
    push_difference(
        &mut differences,
        !same_text(instrumentation.target_triple, optimization.target_triple),
        "target_triple",
    );
    push_difference(
        &mut differences,
        !same_texts(
            &normalized_cargo_arguments(&instrumentation.cargo_arguments),
            &normalized_cargo_arguments(&optimization.cargo_arguments),
        ),
        "cargo_arguments",
    );
    push_difference(
        &mut differences,
        !same_texts(
            &instrumentation.base_profile_overrides,
            &optimization.base_profile_overrides,
        ),
        "base_profile_overrides",
    );
    push_difference(
        &mut differences,
        !same_sources(&instrumentation.config_sources, &optimization.config_sources),
        "config_sources",
    );
    push_difference(
        &mut differences,
        !same_text(instrumentation.cargo_identity.as_str(), optimization.cargo_identity.as_str()),
        "cargo_identity",
    );
    push_difference(
        &mut differences,
        !same_text(instrumentation.rustc_identity.as_str(), optimization.rustc_identity.as_str()),
        "rustc_identity",
    );
    push_difference(
        &mut differences,
        !same_tool_identity(
            &instrumentation.llvm_profdata_identity,
            &optimization.llvm_profdata_identity,
        ),
        "llvm_profdata_identity",
    );
    push_difference(
        &mut differences,
        !same_path(instrumentation.real_rustc.as_slice(), optimization.real_rustc.as_slice()),
        "real_rustc",
    );
    push_difference(
        &mut differences,
        !same_path(
            instrumentation.shim_executable.as_slice(),
            optimization.shim_executable.as_slice(),
        ),
        "shim_executable",
    );
    push_difference(
        &mut differences,
        !has_injection_channel(instrumentation, optimization),
        "pgo_injection_channel",
    );
    assert(texts(differences@) =~= phase_differences(*instrumentation, *optimization));
    differences
}

/// The flags of an optional interposition record.
pub open spec fn flags_of_plan(plan: BuildPlan) -> Seq<Seq<char>> {
    match plan.interposition {
        Some(interposed) => identifiers_of(interposed.injection@),
        None => Seq::empty(),
    }
}

/// Whether `inputs` are the projected inputs of the phase that `plan` builds.
pub open spec fn projects(
    inputs: PgoPhaseInputs,
    selection: SelectionView,
    plan: BuildPlan,
    prerequisites: PgoPrerequisites,
) -> bool {
    &&& inputs.package_id@ == selection.package_id
    &&& inputs.binary_target@ == selection.binary_name
    &&& inputs.target_triple@ == SUPPORTED_HOST@
    &&& inputs.stage == match plan.interposition {
        Some(interposed) => interposed.stage,
        None => ShimStage::Reference,
    }
    &&& texts(inputs.cargo_arguments@) == shown(
        build_words(selection, plan.target_directory@, texts(plan.cargo_config_overrides@)),
    )
    &&& texts(inputs.base_profile_overrides@) == texts(plan.cargo_config_overrides@)
    &&& source_views(inputs.config_sources@) == source_views(
        prerequisites.inspected_config_sources@,
    )
    &&& inputs.cargo_identity@ == prerequisites.tool_identity.cargo_version@
    &&& inputs.rustc_identity@ == prerequisites.tool_identity.rustc_version@
    &&& inputs.llvm_profdata_identity@ == prerequisites.tool_identity@
    &&& inputs.real_rustc@ == prerequisites.real_rustc@
    &&& inputs.shim_executable@ == prerequisites.shim_executable@
    &&& labels(inputs.injected_flags@) == flags_of_plan(plan)
    &&& inputs.target_directory@ == plan.target_directory@
    &&& inputs.capture_directory@ == match plan.interposition {
        Some(interposed) => interposed.capture_directory@,
        None => Seq::empty(),
    }
}

/// Projects the inputs of the phase that `plan` builds.
pub fn phase_inputs(
    selection: &TargetSelection,
    plan: &BuildPlan,
    prerequisites: &PgoPrerequisites,
) -> (inputs: PgoPhaseInputs)
    ensures
        projects(inputs, selection@, *plan, *prerequisites),
{
    let invocation = planned_invocation(selection, plan);
    let mut stage: ShimStage = ShimStage::Reference;
    let mut injected_flags: Vec<&'static str> = Vec::new();
    let mut capture_directory: Vec<u8> = Vec::new();
    assert(labels(injected_flags@) =~= Seq::<Seq<char>>::empty());
    assert(capture_directory@ =~= Seq::<u8>::empty());
    if let Some(record) = invocation.interposition {
        stage = record.stage;
        injected_flags = record.injected_flags;
        capture_directory = record.capture_directory;
    }
    PgoPhaseInputs {
        package_id: selection.package_id.clone(),
        binary_target: selection.binary_name.clone(),
        target_triple: SUPPORTED_HOST,
        stage,
        cargo_arguments: invocation.cargo_arguments,
        base_profile_overrides: invocation.cargo_config_overrides,
        config_sources: copy_sources(&prerequisites.inspected_config_sources),
        cargo_identity: prerequisites.tool_identity.cargo_version.clone(),
        rustc_identity: prerequisites.tool_identity.rustc_version.clone(),
        llvm_profdata_identity: prerequisites.tool_identity.clone(),
        real_rustc: prerequisites.real_rustc.clone(),
        shim_executable: prerequisites.shim_executable.clone(),
        injected_flags,
        target_directory: invocation.target_directory,
        capture_directory,
    }
}

/// The comparison of the projected inputs of the two PGO phases. Observed compiler evidence is
/// compared separately, once every stage has executed.
#[derive(Debug)]
pub struct PgoParityRecord {
    pub permitted_differences: Vec<&'static str>,
    pub reference: Option<PgoPhaseInputs>,
    pub instrumentation: Option<PgoPhaseInputs>,
    pub optimization: Option<PgoPhaseInputs>,
    pub matched: bool,
    pub unexpected_differences: Vec<String>,
}

/// The fields in which the two phases may differ.
pub open spec fn permitted() -> Seq<Seq<char>> {
    seq![
        "interposition_stage"@,
        "target_directory"@,
        "capture_directory"@,
        "profile_generate_vs_use"@,
        "pgo_warn_missing_function_in_use"@,
    ]
}

/// The differences between the phases of a record that are not permitted.
pub open spec fn unexpected(
    instrumentation: Option<PgoPhaseInputs>,
    optimization: Option<PgoPhaseInputs>,
) -> Seq<Seq<char>> {
    match instrumentation {
        None => seq!["instrumentation_inputs_unavailable"@],
        Some(generated) => match optimization {
            None => seq!["optimization_inputs_unavailable"@],
            Some(used) => phase_differences(generated, used),
        },
    }
}

/// Whether a record's decision is that of its phases.
pub open spec fn is_decided(record: PgoParityRecord) -> bool {
    &&& texts(record.unexpected_differences@) == unexpected(
        record.instrumentation,
        record.optimization,
    )
    &&& record.matched == (unexpected(record.instrumentation, record.optimization).len() == 0)
}

impl PgoParityRecord {
    /// A comparison of which nothing is known yet.
    pub fn pending() -> (record: PgoParityRecord)
        ensures
            labels(record.permitted_differences@) == permitted(),
            record.reference is None,
            record.instrumentation is None,
            record.optimization is None,
            !record.matched,
            record.unexpected_differences@.len() == 0,
    {
        let mut permitted_differences: Vec<&'static str> = Vec::new();
        permitted_differences.push("interposition_stage");
        permitted_differences.push("target_directory");
        permitted_differences.push("capture_directory");
        permitted_differences.push("profile_generate_vs_use");
        permitted_differences.push("pgo_warn_missing_function_in_use");
        assert(labels(permitted_differences@) =~= permitted());
        PgoParityRecord {
            permitted_differences,
            reference: None,
            instrumentation: None,
            optimization: None,
            matched: false,
            unexpected_differences: Vec::new(),
        }
    }

    /// Compares the projected inputs of the two PGO phases.
    pub fn decide(&mut self)
        ensures
            is_decided(*final(self)),
            final(self).permitted_differences == old(self).permitted_differences,
            final(self).reference == old(self).reference,
            final(self).instrumentation == old(self).instrumentation,
            final(self).optimization == old(self).optimization,
    {
        let mut differences: Vec<String> = Vec::new();
        match (&self.instrumentation, &self.optimization) {
            (None, _) => {
                differences.push("instrumentation_inputs_unavailable".to_owned());
                assert(texts(differences@) =~= seq!["instrumentation_inputs_unavailable"@]);
            },
            (Some(_), None) => {
                differences.push("optimization_inputs_unavailable".to_owned());
                assert(texts(differences@) =~= seq!["optimization_inputs_unavailable"@]);
            },
            (Some(instrumentation), Some(optimization)) => {
                differences = compare_phase_inputs(instrumentation, optimization);
            },
        }
        assert(differences@.len() == texts(differences@).len());
        self.matched = differences.len() == 0;
        self.unexpected_differences = differences;
    }
}

/// Whether two phases agree on every field outside the permitted ones, and each receives its own
/// controls.
pub open spec fn phases_agree(
    instrumentation: PgoPhaseInputs,
    optimization: PgoPhaseInputs,
) -> bool {
    &&& instrumentation.package_id@ == optimization.package_id@
    &&& instrumentation.binary_target@ == optimization.binary_target@
    &&& instrumentation.target_triple@ == optimization.target_triple@
    &&& without_target_directory(texts(instrumentation.cargo_arguments@))
        == without_target_directory(texts(optimization.cargo_arguments@))
    &&& texts(instrumentation.base_profile_overrides@) == texts(
        optimization.base_profile_overrides@,
    )
    &&& source_keys(instrumentation.config_sources@) == source_keys(optimization.config_sources@)
    &&& instrumentation.cargo_identity@ == optimization.cargo_identity@
    &&& instrumentation.rustc_identity@ == optimization.rustc_identity@
    &&& same_tools(
        instrumentation.llvm_profdata_identity@,
        optimization.llvm_profdata_identity@,
    )
    &&& parts(instrumentation.real_rustc@) == parts(optimization.real_rustc@)
    &&& parts(instrumentation.shim_executable@) == parts(optimization.shim_executable@)
    &&& is_injection_channel(instrumentation, optimization)
}

/// A decided comparison matches exactly where both phases were projected and agree.
pub proof fn law_phases_match_only_when_they_agree(record: PgoParityRecord)
    requires
        is_decided(record),
    ensures
        record.matched <==> record.instrumentation is Some && record.optimization is Some
            && phases_agree(record.instrumentation->0, record.optimization->0),
{
}

/// Two phases have no difference exactly where they agree in every input but their stages and
/// directories, the one generates profiles and the other uses them.
pub proof fn law_phases_differ_in_any_input(
    instrumentation: PgoPhaseInputs,
    optimization: PgoPhaseInputs,
)
    ensures
        ({
            let generated = instrumentation.llvm_profdata_identity@;
            let used = optimization.llvm_profdata_identity@;
            phase_differences(instrumentation, optimization).len() == 0 <==> {
                &&& instrumentation.package_id@ == optimization.package_id@
                &&& instrumentation.binary_target@ == optimization.binary_target@
                &&& instrumentation.target_triple@ == optimization.target_triple@
                &&& without_target_directory(texts(instrumentation.cargo_arguments@))
                    == without_target_directory(texts(optimization.cargo_arguments@))
                &&& texts(instrumentation.base_profile_overrides@) == texts(
                    optimization.base_profile_overrides@,
                )
                &&& source_keys(instrumentation.config_sources@) == source_keys(
                    optimization.config_sources@,
                )
                &&& instrumentation.cargo_identity@ == optimization.cargo_identity@
                &&& instrumentation.rustc_identity@ == optimization.rustc_identity@
                &&& generated.cargo_version == used.cargo_version
                &&& generated.rustc_version == used.rustc_version
                &&& parts(generated.llvm_profdata_path) == parts(used.llvm_profdata_path)
                &&& generated.llvm_profdata_sha256 == used.llvm_profdata_sha256
                &&& generated.llvm_profdata_version == used.llvm_profdata_version
                &&& parts(instrumentation.real_rustc@) == parts(optimization.real_rustc@)
                &&& parts(instrumentation.shim_executable@) == parts(optimization.shim_executable@)
                &&& labels(instrumentation.injected_flags@) == seq!["profile-generate"@]
                &&& labels(optimization.injected_flags@) == seq![
                    "profile-use"@,
                    "pgo-warn-missing-function"@,
                ]
            }
        }),
{
}

proof fn lemma_text_place(values: Seq<Seq<char>>, wanted: Seq<char>, from: int, place: int)
    requires
        0 <= from <= place < values.len(),
        values[place] == wanted,
        forall|i: int| from <= i < place ==> values[i] != wanted,
    ensures
        text_place(values, wanted, from) == Some(place),
    decreases place - from,
{
    if from < place {
        lemma_text_place(values, wanted, from + 1, place);
    }
}

proof fn lemma_text_absent(values: Seq<Seq<char>>, wanted: Seq<char>, from: int)
    requires
        0 <= from,
        !values.contains(wanted),
    ensures
        text_place(values, wanted, from) is None,
    decreases values.len() - from,
{
    if from < values.len() {
        assert(values[from] != wanted) by {
            if values[from] == wanted {
                assert(values.contains(values[from]));
            }
        }
        lemma_text_absent(values, wanted, from + 1);
    }
}

/// Only the word behind the first mention of the target directory is left open; every other word of
/// the Cargo arguments counts.
pub proof fn law_only_the_target_directory_is_left_open(
    head: Seq<Seq<char>>,
    directory: Seq<char>,
    tail: Seq<Seq<char>>,
)
    requires
        !head.contains("--target-dir"@),
    ensures
        without_target_directory(head) == head,
        without_target_directory(head + seq!["--target-dir"@, directory] + tail) == head
            + seq!["--target-dir"@, "<isolated-target-directory>"@] + tail,
{
    let whole = head + seq!["--target-dir"@, directory] + tail;
    let place = head.len() as int;
    lemma_text_absent(head, "--target-dir"@, 0);
    assert forall|i: int| 0 <= i < place implies whole[i] != "--target-dir"@ by {
        if whole[i] == "--target-dir"@ {
            assert(head[i] == whole[i]);
            assert(head.contains(head[i]));
        }
    }
    assert(whole[place] == "--target-dir"@);
    lemma_text_place(whole, "--target-dir"@, 0, place);
    assert(without_target_directory(whole) =~= head
        + seq!["--target-dir"@, "<isolated-target-directory>"@] + tail);
}

/// Config sources are the same exactly where they have the same paths and digests in the same
/// order.
pub proof fn law_sources_are_compared_by_path_and_digest(
    left: Seq<ConfigSourceRecord>,
    right: Seq<ConfigSourceRecord>,
)
    ensures
        source_keys(left) == source_keys(right) <==> {
            &&& left.len() == right.len()
            &&& forall|i: int|
                0 <= i < left.len() ==> parts((#[trigger] left[i]).path@) == parts(right[i].path@)
                    && left[i].sha256@ == right[i].sha256@
        },
{
    let a = source_keys(left);
    let b = source_keys(right);
    assert(a.len() == left.len() && b.len() == right.len());
    if a == b {
        assert forall|i: int| 0 <= i < left.len() implies parts((#[trigger] left[i]).path@)
            == parts(right[i].path@) && left[i].sha256@ == right[i].sha256@ by {
            assert(a[i] == b[i]);
            assert(a[i] == source_key(left[i]));
            assert(b[i] == source_key(right[i]));
        }
    }
    if left.len() == right.len() && forall|i: int|
        0 <= i < left.len() ==> parts((#[trigger] left[i]).path@) == parts(right[i].path@)
            && left[i].sha256@ == right[i].sha256@ {
        assert(a =~= b) by {
            assert forall|i: int| 0 <= i < left.len() implies a[i] == b[i] by {
                assert(left[i].sha256@ == right[i].sha256@);
            }
        }
    }
}

} // verus!
