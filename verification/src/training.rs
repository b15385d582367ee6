//! PGO training: the stages from the proof of the boundary to the optimized plan.
//!
//! Training alternates outside work and decisions. `train_pgo` takes what the last piece of work
//! came to, and says what is to be done next; every rejection keeps the evidence gathered so far.

use vstd::prelude::*;
use vstd::string::*;
use vstd::utf8::*;

use crate::cargo::{BuildFailure, BuildRecord, TargetSelection};
use crate::interposition::{
    compiler_input_reason, is_compiler_input_reason, Injection, InjectionView, InterpositionPlan,
    ShimStage,
};
use crate::parity::{inputs_of_evidence, stage_inputs, StageInputs};
use crate::paths::{join, join_path};
use crate::phases::{
    is_decided, labels, law_phases_match_only_when_they_agree, permitted, phase_inputs,
    phases_agree, projects, PgoParityRecord, PgoPrerequisites,
};
use crate::prerequisites::PgoPrerequisiteFailure;
use crate::profiles::{ProfileFileRecord, ProfileMergeOutcome, ProfileMergeRecord};
use crate::strategy::{overrides_of, BuildPlan, BuildStage, Strategy};
use crate::text::{lossy, lossy_text, optional_text, text2, text4, texts};
use crate::tools::RootEvent;
use crate::workload::{WorkloadFailure, WorkloadFailureKind};

verus! {

#[derive(Clone, Copy, Debug, PartialEq, Eq, Structural)]
pub enum PgoTrainingOutcomeKind {
    Trained,
    Rejected,
}

#[derive(Clone, Copy, Debug, PartialEq, Eq, Structural)]
pub enum PgoFailureStage {
    Prerequisites,
    Reference,
    Instrumentation,
    Training,
    ProfileDiscovery,
    ProfileMerge,
}

/// Every durable PGO training fact, so that each rejection persists the evidence gathered so far.
#[derive(Debug)]
pub struct TrainingState {
    pub base_strategy: Strategy,
    pub prerequisites: Option<PgoPrerequisites>,
    pub reference_build: Option<BuildRecord>,
    pub reference_failure: Option<BuildFailure>,
    pub instrumentation_build: Option<BuildRecord>,
    pub instrumentation_failure: Option<BuildFailure>,
    pub training_duration_ns: Option<u64>,
    pub raw_profile_files: Vec<ProfileFileRecord>,
    pub merge: Option<ProfileMergeRecord>,
    pub phase_parity: PgoParityRecord,
}

/// What is persisted of a training.
#[derive(Debug)]
pub struct PgoTrainingRecord {
    pub outcome: PgoTrainingOutcomeKind,
    pub base_strategy: Strategy,
    pub prerequisites: Option<PgoPrerequisites>,
    pub reference_build: Option<BuildRecord>,
    pub reference_failure: Option<BuildFailure>,
    pub instrumentation_build: Option<BuildRecord>,
    pub instrumentation_failure: Option<BuildFailure>,
    pub training_duration_ns: Option<u64>,
    pub raw_profile_files: Vec<ProfileFileRecord>,
    pub merge: Option<ProfileMergeRecord>,
    pub phase_parity: PgoParityRecord,
    pub failure_stage: Option<PgoFailureStage>,
    pub rejection_reason: Option<String>,
    pub message: Option<String>,
    pub remediation: Option<&'static str>,
}

/// Whether a record keeps every fact of a state, with its phases compared.
pub open spec fn keeps(record: PgoTrainingRecord, state: TrainingState) -> bool {
    &&& record.base_strategy == state.base_strategy
    &&& record.prerequisites == state.prerequisites
    &&& record.reference_build == state.reference_build
    &&& record.reference_failure == state.reference_failure
    &&& record.instrumentation_build == state.instrumentation_build
    &&& record.instrumentation_failure == state.instrumentation_failure
    &&& record.training_duration_ns == state.training_duration_ns
    &&& record.raw_profile_files == state.raw_profile_files
    &&& record.merge == state.merge
    &&& record.phase_parity.permitted_differences == state.phase_parity.permitted_differences
    &&& record.phase_parity.reference == state.phase_parity.reference
    &&& record.phase_parity.instrumentation == state.phase_parity.instrumentation
    &&& record.phase_parity.optimization == state.phase_parity.optimization
    &&& is_decided(record.phase_parity)
}

/// Whether a record rejects a state at a stage, for a reason.
pub open spec fn rejects(
    record: PgoTrainingRecord,
    state: TrainingState,
    stage: PgoFailureStage,
    reason: Seq<char>,
    message: Seq<char>,
) -> bool {
    &&& keeps(record, state)
    &&& record.outcome == PgoTrainingOutcomeKind::Rejected
    &&& record.failure_stage == Some(stage)
    &&& optional_text(record.rejection_reason) == Some(reason)
    &&& optional_text(record.message) == Some(message)
}

/// Whether a state names a strategy and holds nothing yet but the allowlist of its comparison.
pub open spec fn is_new_state(state: TrainingState, base_strategy: Strategy) -> bool {
    &&& state.base_strategy == base_strategy
    &&& state.prerequisites is None
    &&& state.reference_build is None
    &&& state.reference_failure is None
    &&& state.instrumentation_build is None
    &&& state.instrumentation_failure is None
    &&& state.training_duration_ns is None
    &&& state.raw_profile_files@.len() == 0
    &&& state.merge is None
    &&& labels(state.phase_parity.permitted_differences@) == permitted()
    &&& state.phase_parity.reference is None
    &&& state.phase_parity.instrumentation is None
    &&& state.phase_parity.optimization is None
    &&& !state.phase_parity.matched
    &&& state.phase_parity.unexpected_differences@.len() == 0
}

impl TrainingState {
    /// A training of which nothing is known yet.
    pub fn new(base_strategy: Strategy) -> (state: TrainingState)
        ensures
            is_new_state(state, base_strategy),
    {
        TrainingState {
            base_strategy,
            prerequisites: None,
            reference_build: None,
            reference_failure: None,
            instrumentation_build: None,
            instrumentation_failure: None,
            training_duration_ns: None,
            raw_profile_files: Vec::new(),
            merge: None,
            phase_parity: PgoParityRecord::pending(),
        }
    }

    /// Ends the training with everything that it gathered.
    pub fn reject(
        self,
        stage: PgoFailureStage,
        reason: &str,
        message: String,
        remediation: Option<&'static str>,
    ) -> (record: PgoTrainingRecord)
        ensures
            rejects(record, self, stage, reason@, message@),
            record.remediation == remediation,
    {
        let mut phase_parity = self.phase_parity;
        phase_parity.decide();
        PgoTrainingRecord {
            outcome: PgoTrainingOutcomeKind::Rejected,
            base_strategy: self.base_strategy,
            prerequisites: self.prerequisites,
            reference_build: self.reference_build,
            reference_failure: self.reference_failure,
            instrumentation_build: self.instrumentation_build,
            instrumentation_failure: self.instrumentation_failure,
            training_duration_ns: self.training_duration_ns,
            raw_profile_files: self.raw_profile_files,
            merge: self.merge,
            phase_parity,
            failure_stage: Some(stage),
            rejection_reason: Some(reason.to_owned()),
            message: Some(message),
            remediation,
        }
    }

    /// Ends a training that succeeded.
    pub fn trained(self) -> (record: PgoTrainingRecord)
        ensures
            keeps(record, self),
            record.outcome == PgoTrainingOutcomeKind::Trained,
            record.failure_stage is None,
            record.rejection_reason is None,
            record.message is None,
            record.remediation is None,
    {
        let mut phase_parity = self.phase_parity;
        phase_parity.decide();
        PgoTrainingRecord {
            outcome: PgoTrainingOutcomeKind::Trained,
            base_strategy: self.base_strategy,
            prerequisites: self.prerequisites,
            reference_build: self.reference_build,
            reference_failure: self.reference_failure,
            instrumentation_build: self.instrumentation_build,
            instrumentation_failure: self.instrumentation_failure,
            training_duration_ns: self.training_duration_ns,
            raw_profile_files: self.raw_profile_files,
            merge: self.merge,
            phase_parity,
            failure_stage: None,
            rejection_reason: None,
            message: None,
            remediation: None,
        }
    }
}

/// The rejection of a failed stage build: the reason of its compiler inputs, where it has one.
pub open spec fn build_rejection(reason: Seq<char>, fallback: Seq<char>) -> Seq<char> {
    if is_compiler_input_reason(reason) {
        reason
    } else {
        fallback
    }
}

/// The rejection of a failed stage build.
pub fn pgo_build_rejection(failure: &BuildFailure, fallback: &'static str) -> (reason: &'static str)
    ensures
        reason@ == build_rejection(failure.reason@, fallback@),
{
    match compiler_input_reason(failure.reason) {
        Some(stable) => stable,
        None => fallback,
    }
}

/// The canonical directory of the raw profiles, or why there is none.
pub open spec fn directory_outcome(directory: Seq<u8>, event: RootEvent) -> Result<
    Seq<u8>,
    Seq<char>,
> {
    match event {
        RootEvent::NotCreated(error) => Err(
            "Could not create the run-scoped PGO profile directory "@ + lossy_text(directory)
                + ": "@ + error@,
        ),
        RootEvent::NotCanonical(error) => Err(
            "Could not canonicalize the PGO profile directory: "@ + error@,
        ),
        RootEvent::Canonical(path) => Ok(path@),
    }
}

/// Where the raw profiles of a run lie.
pub fn raw_profile_directory(run_directory: &[u8]) -> (path: Vec<u8>)
    ensures
        path@ == join_path(
            join_path(run_directory@, encode_utf8("pgo"@)),
            encode_utf8("raw"@),
        ),
{
    join(join(run_directory, "pgo".as_bytes()).as_slice(), "raw".as_bytes())
}

/// Decides the preparation of the directory of the raw profiles.
pub fn prepare_profile_directory(directory: &[u8], event: RootEvent) -> (path: Result<
    Vec<u8>,
    String,
>)
    ensures
        match path {
            Ok(found) => directory_outcome(directory@, event) == Ok::<Seq<u8>, Seq<char>>(found@),
            Err(message) => directory_outcome(directory@, event) == Err::<Seq<u8>, Seq<char>>(
                message@,
            ),
        },
{
    match event {
        RootEvent::NotCreated(error) => Err(
            text4(
                "Could not create the run-scoped PGO profile directory ",
                lossy(directory).as_str(),
                ": ",
                error.as_str(),
            ),
        ),
        RootEvent::NotCanonical(error) => Err(
            text2("Could not canonicalize the PGO profile directory: ", error.as_str()),
        ),
        RootEvent::Canonical(path) => Ok(path),
    }
}

/// A training that came to its end.
#[derive(Debug)]
pub struct PgoTrainingSuccess {
    pub record: PgoTrainingRecord,
    pub optimized_plan: BuildPlan,
    /// What the compilers of the reference stage were observed to do.
    pub reference_inputs: Option<StageInputs>,
    /// What the compilers of the instrumented stage were observed to do.
    pub instrumentation_inputs: Option<StageInputs>,
}

#[derive(Debug)]
pub enum PgoTrainingOutcome {
    Trained(PgoTrainingSuccess),
    Rejected(PgoTrainingRecord),
    Interrupted(PgoTrainingRecord, WorkloadFailure),
}

/// Which piece of work a training waits for.
#[derive(Clone, Copy, Debug, PartialEq, Eq, Structural)]
pub enum TrainingStep {
    Boundary,
    ReferencePlan,
    ReferenceBuild,
    ProfileDirectory,
    InstrumentationPlan,
    InstrumentationBuild,
    Workload,
    Discovery,
    Merge,
    MergedProfile,
    SecondBoundary,
    OptimizedPlan,
}

/// A training in progress.
#[derive(Debug)]
pub struct Training {
    pub step: TrainingStep,
    pub state: TrainingState,
    pub raw_directory: Vec<u8>,
    pub merged_profile: Vec<u8>,
    pub optimization: Option<PgoPrerequisites>,
}

/// What a piece of work came to.
#[derive(Debug)]
pub enum TrainingEvent {
    Proved(Result<PgoPrerequisites, PgoPrerequisiteFailure>),
    Planned(Result<InterpositionPlan, String>),
    Built(Result<BuildRecord, BuildFailure>),
    Prepared(Result<Vec<u8>, String>),
    Ran(Result<u64, WorkloadFailure>),
    Discovered(Result<Vec<ProfileFileRecord>, String>),
    Merged(ProfileMergeRecord),
    Canonical(Result<Vec<u8>, String>),
}

/// The next piece of work.
#[derive(Debug)]
pub enum TrainingAction {
    Prove,
    Plan(ShimStage, Injection),
    Build(BuildPlan),
    PrepareProfiles,
    /// Run the workload on this executable, which writes its profiles by this pattern.
    Run(Vec<u8>, Vec<u8>),
    /// Discover the raw profiles below this directory.
    Discover(Vec<u8>),
    /// Merge the raw profiles into this file.
    Merge(Vec<u8>),
    Canonicalize(Vec<u8>),
    Finish(PgoTrainingOutcome),
}

/// Whether an event is the one that a step waits for.
pub open spec fn is_expected(step: TrainingStep, event: TrainingEvent) -> bool {
    match step {
        TrainingStep::Boundary | TrainingStep::SecondBoundary => event is Proved,
        TrainingStep::ReferencePlan => event is Planned,
        TrainingStep::InstrumentationPlan => event is Planned,
        TrainingStep::OptimizedPlan => event is Planned,
        TrainingStep::ReferenceBuild | TrainingStep::InstrumentationBuild => event is Built,
        TrainingStep::ProfileDirectory => event is Prepared,
        TrainingStep::Workload => event is Ran,
        TrainingStep::Discovery => event is Discovered,
        TrainingStep::Merge => event is Merged,
        TrainingStep::MergedProfile => event is Canonical,
    }
}

/// How far a step is.
pub open spec fn step_place(step: TrainingStep) -> int {
    match step {
        TrainingStep::Boundary => 0,
        TrainingStep::ReferencePlan => 1,
        TrainingStep::ReferenceBuild => 2,
        TrainingStep::ProfileDirectory => 3,
        TrainingStep::InstrumentationPlan => 4,
        TrainingStep::InstrumentationBuild => 5,
        TrainingStep::Workload => 6,
        TrainingStep::Discovery => 7,
        TrainingStep::Merge => 8,
        TrainingStep::MergedProfile => 9,
        TrainingStep::SecondBoundary => 10,
        TrainingStep::OptimizedPlan => 11,
    }
}

impl Training {
    /// Whether what a step rests on was gathered.
    pub open spec fn well_formed(self) -> bool {
        let place = step_place(self.step);
        &&& place >= 1 ==> self.state.prerequisites is Some
        &&& place >= 2 ==> self.state.phase_parity.reference is Some
        &&& place >= 3 ==> self.state.reference_build is Some
        &&& place >= 5 ==> self.state.phase_parity.instrumentation is Some
        &&& place >= 6 ==> self.state.instrumentation_build is Some
        &&& place >= 7 ==> self.state.training_duration_ns is Some
        &&& place >= 8 ==> self.state.raw_profile_files@.len() > 0
        &&& place >= 9 ==> self.state.merge is Some && self.state.merge->0.outcome
            == ProfileMergeOutcome::Merged
        &&& place >= 11 ==> self.optimization is Some
    }

    /// Starts the training of a strategy: the boundary is to be proved.
    pub fn start(base_strategy: Strategy) -> (training: Training)
        ensures
            training.well_formed(),
            training.step == TrainingStep::Boundary,
            is_new_state(training.state, base_strategy),
            training.raw_directory@.len() == 0,
            training.merged_profile@.len() == 0,
            training.optimization is None,
    {
        Training {
            step: TrainingStep::Boundary,
            state: TrainingState::new(base_strategy),
            raw_directory: Vec::new(),
            merged_profile: Vec::new(),
            optimization: None,
        }
    }

    /// What was proved last: the optimized stage proves its own prerequisites.
    pub fn proved(&self) -> (found: Option<&PgoPrerequisites>)
        ensures
            match found {
                Some(prerequisites) => proved_last(*self) == Some(*prerequisites),
                None => proved_last(*self) is None,
            },
            self.well_formed() && step_place(self.step) >= 1 ==> found is Some,
    {
        match &self.optimization {
            Some(prerequisites) => Some(prerequisites),
            None => self.state.prerequisites.as_ref(),
        }
    }
}

/// The prerequisites that the next stage of a training rests on.
pub open spec fn proved_last(training: Training) -> Option<PgoPrerequisites> {
    match training.optimization {
        Some(prerequisites) => Some(prerequisites),
        None => training.state.prerequisites,
    }
}

/// Whether a plan builds a stage of PGO with this interposition.
pub open spec fn is_stage_plan(
    plan: BuildPlan,
    base_strategy: Strategy,
    stage: BuildStage,
    interposition: InterpositionPlan,
) -> bool {
    &&& plan.strategy == Strategy::Pgo
    &&& plan.stage == stage
    &&& plan.target_directory@ == interposition.target_directory@
    &&& texts(plan.cargo_config_overrides@) == overrides_of(base_strategy)
    &&& plan.interposition == Some(interposition)
}

/// Whether a training ends by rejecting a state.
pub open spec fn finishes_rejected(
    action: TrainingAction,
    state: TrainingState,
    stage: PgoFailureStage,
    reason: Seq<char>,
    message: Seq<char>,
) -> bool {
    action matches TrainingAction::Finish(PgoTrainingOutcome::Rejected(record)) && rejects(
        record,
        state,
        stage,
        reason,
        message,
    ) && record.remediation is None
}

/// Whether a training ends because its boundary could not be proved.
pub open spec fn finishes_unproved(
    action: TrainingAction,
    state: TrainingState,
    failure: PgoPrerequisiteFailure,
) -> bool {
    action matches TrainingAction::Finish(PgoTrainingOutcome::Rejected(record)) && rejects(
        record,
        state,
        PgoFailureStage::Prerequisites,
        failure.reason@,
        failure.message@,
    ) && record.remediation == failure.remediation
}

/// The first proof of the boundary.
pub open spec fn proves_boundary(
    before: Training,
    proved: Result<PgoPrerequisites, PgoPrerequisiteFailure>,
    after: Option<Training>,
    action: TrainingAction,
) -> bool {
    match proved {
        Err(failure) => after is None && finishes_unproved(action, before.state, failure),
        Ok(prerequisites) => {
            &&& after == Some(
                Training {
                    step: TrainingStep::ReferencePlan,
                    state: TrainingState {
                        prerequisites: Some(prerequisites),
                        ..before.state
                    },
                    ..before
                },
            )
            &&& action matches TrainingAction::Plan(stage, injection)
            &&& stage == ShimStage::Reference
            &&& injection@ == InjectionView::Nothing
        },
    }
}

/// The plan of the pass-through reference stage. It observes the compiler inputs that Cargo
/// resolves with no PGO control at all, the boundary that the other stages are compared against.
pub open spec fn plans_reference(
    before: Training,
    selection: TargetSelection,
    planned: Result<InterpositionPlan, String>,
    after: Option<Training>,
    action: TrainingAction,
) -> bool {
    match planned {
        Err(message) => after is None && finishes_rejected(
            action,
            before.state,
            PgoFailureStage::Reference,
            "pgo_stage_isolation_failed"@,
            message@,
        ),
        Ok(interposition) => {
            &&& action matches TrainingAction::Build(plan)
            &&& is_stage_plan(
                plan,
                before.state.base_strategy,
                BuildStage::PgoReference,
                interposition,
            )
            &&& after matches Some(next)
            &&& next == (Training {
                step: TrainingStep::ReferenceBuild,
                state: TrainingState {
                    phase_parity: PgoParityRecord {
                        reference: next.state.phase_parity.reference,
                        ..before.state.phase_parity
                    },
                    ..before.state
                },
                ..before
            })
            &&& next.state.phase_parity.reference is Some
            &&& projects(
                next.state.phase_parity.reference->0,
                selection@,
                plan,
                before.state.prerequisites->0,
            )
        },
    }
}

/// The build of the reference stage.
pub open spec fn builds_reference(
    before: Training,
    built: Result<BuildRecord, BuildFailure>,
    after: Option<Training>,
    action: TrainingAction,
) -> bool {
    match built {
        Err(failure) => after is None && finishes_rejected(
            action,
            TrainingState { reference_failure: Some(failure), ..before.state },
            PgoFailureStage::Reference,
            build_rejection(failure.reason@, "pgo_reference_failed"@),
            failure.message@,
        ),
        Ok(build) => {
            &&& action is PrepareProfiles
            &&& after == Some(
                Training {
                    step: TrainingStep::ProfileDirectory,
                    state: TrainingState { reference_build: Some(build), ..before.state },
                    ..before
                },
            )
        },
    }
}

/// The preparation of the directory of the raw profiles.
pub open spec fn prepares_profiles(
    before: Training,
    prepared: Result<Vec<u8>, String>,
    after: Option<Training>,
    action: TrainingAction,
) -> bool {
    match prepared {
        Err(message) => after is None && finishes_rejected(
            action,
            before.state,
            PgoFailureStage::Instrumentation,
            "pgo_profile_directory_failed"@,
            message@,
        ),
        Ok(directory) => {
            &&& action matches TrainingAction::Plan(stage, injection)
            &&& stage == ShimStage::Generate
            &&& injection@ == InjectionView::Generate(directory@)
            &&& after == Some(
                Training {
                    step: TrainingStep::InstrumentationPlan,
                    raw_directory: directory,
                    ..before
                },
            )
        },
    }
}

/// The plan of the instrumented stage.
pub open spec fn plans_instrumentation(
    before: Training,
    selection: TargetSelection,
    planned: Result<InterpositionPlan, String>,
    after: Option<Training>,
    action: TrainingAction,
) -> bool {
    match planned {
        Err(message) => after is None && finishes_rejected(
            action,
            before.state,
            PgoFailureStage::Instrumentation,
            "pgo_stage_isolation_failed"@,
            message@,
        ),
        Ok(interposition) => {
            &&& action matches TrainingAction::Build(plan)
            &&& is_stage_plan(
                plan,
                before.state.base_strategy,
                BuildStage::PgoInstrumentation,
                interposition,
            )
            &&& after matches Some(next)
            &&& next == (Training {
                step: TrainingStep::InstrumentationBuild,
                state: TrainingState {
                    phase_parity: PgoParityRecord {
                        instrumentation: next.state.phase_parity.instrumentation,
                        ..before.state.phase_parity
                    },
                    ..before.state
                },
                ..before
            })
            &&& next.state.phase_parity.instrumentation is Some
            &&& projects(
                next.state.phase_parity.instrumentation->0,
                selection@,
                plan,
                before.state.prerequisites->0,
            )
        },
    }
}

/// The pattern by which an instrumented executable names its profiles.
pub open spec fn profile_pattern(raw_directory: Seq<u8>) -> Seq<u8> {
    join_path(raw_directory, encode_utf8("temper-%m-%p.profraw"@))
}

/// The build of the instrumented stage.
pub open spec fn builds_instrumentation(
    before: Training,
    built: Result<BuildRecord, BuildFailure>,
    after: Option<Training>,
    action: TrainingAction,
) -> bool {
    match built {
        Err(failure) => after is None && finishes_rejected(
            action,
            TrainingState { instrumentation_failure: Some(failure), ..before.state },
            PgoFailureStage::Instrumentation,
            build_rejection(failure.reason@, "pgo_instrumentation_failed"@),
            failure.message@,
        ),
        Ok(build) => {
            &&& action matches TrainingAction::Run(executable, pattern)
            &&& executable@ == build.executable_path@
            &&& pattern@ == profile_pattern(before.raw_directory@)
            &&& after == Some(
                Training {
                    step: TrainingStep::Workload,
                    state: TrainingState {
                        instrumentation_build: Some(build),
                        ..before.state
                    },
                    ..before
                },
            )
        },
    }
}

/// The training run of the instrumented executable.
pub open spec fn runs_workload(
    before: Training,
    ran: Result<u64, WorkloadFailure>,
    after: Option<Training>,
    action: TrainingAction,
) -> bool {
    match ran {
        Err(failure) => if failure.kind == WorkloadFailureKind::Interrupted {
            &&& after is None
            &&& action matches TrainingAction::Finish(
                PgoTrainingOutcome::Interrupted(record, interruption),
            )
            &&& interruption == failure
            &&& rejects(
                record,
                before.state,
                PgoFailureStage::Training,
                "pgo_training_interrupted"@,
                failure.message@,
            )
            &&& record.remediation is None
        } else {
            after is None && finishes_rejected(
                action,
                before.state,
                PgoFailureStage::Training,
                "pgo_training_failed"@,
                failure.message@,
            )
        },
        Ok(duration_ns) => {
            &&& action matches TrainingAction::Discover(directory)
            &&& directory@ == before.raw_directory@
            &&& after == Some(
                Training {
                    step: TrainingStep::Discovery,
                    state: TrainingState {
                        training_duration_ns: Some(duration_ns),
                        ..before.state
                    },
                    ..before
                },
            )
        },
    }
}

/// Where the merged profile of a run is written.
pub open spec fn merged_path(run_directory: Seq<u8>) -> Seq<u8> {
    join_path(join_path(run_directory, encode_utf8("pgo"@)), encode_utf8("merged.profdata"@))
}

/// The discovery of the raw profiles.
pub open spec fn discovers_profiles(
    before: Training,
    run_directory: Seq<u8>,
    discovered: Result<Vec<ProfileFileRecord>, String>,
    after: Option<Training>,
    action: TrainingAction,
) -> bool {
    match discovered {
        Err(message) => after is None && finishes_rejected(
            action,
            before.state,
            PgoFailureStage::ProfileDiscovery,
            "pgo_profile_discovery_failed"@,
            message@,
        ),
        Ok(files) => if files@.len() == 0 {
            after is None && finishes_rejected(
                action,
                before.state,
                PgoFailureStage::ProfileDiscovery,
                "pgo_training_produced_no_profraw_files"@,
                "PGO training produced no raw profile files."@,
            )
        } else {
            &&& action matches TrainingAction::Merge(path)
            &&& path@ == merged_path(run_directory)
            &&& after == Some(
                Training {
                    step: TrainingStep::Merge,
                    state: TrainingState { raw_profile_files: files, ..before.state },
                    ..before
                },
            )
        },
    }
}

/// The message of a rejected merge.
pub open spec fn merge_message(merge: ProfileMergeRecord) -> Seq<char> {
    match merge.message {
        Some(message) => message@,
        None => "llvm-profdata merge rejected the profile data."@,
    }
}

/// The merge of the raw profiles.
pub open spec fn merges_profiles(
    before: Training,
    run_directory: Seq<u8>,
    merge: ProfileMergeRecord,
    after: Option<Training>,
    action: TrainingAction,
) -> bool {
    let state = TrainingState { merge: Some(merge), ..before.state };
    if merge.outcome == ProfileMergeOutcome::Rejected {
        after is None && finishes_rejected(
            action,
            state,
            PgoFailureStage::ProfileMerge,
            "pgo_profile_merge_failed"@,
            merge_message(merge),
        )
    } else {
        &&& action matches TrainingAction::Canonicalize(path)
        &&& path@ == merged_path(run_directory)
        &&& after == Some(Training { step: TrainingStep::MergedProfile, state, ..before })
    }
}

/// The canonical path of the merged profile.
pub open spec fn finds_merged_profile(
    before: Training,
    canonical: Result<Vec<u8>, String>,
    after: Option<Training>,
    action: TrainingAction,
) -> bool {
    match canonical {
        Err(error) => after is None && finishes_rejected(
            action,
            before.state,
            PgoFailureStage::ProfileMerge,
            "pgo_merged_profile_unavailable"@,
            "Merged PGO profile could not be canonicalized: "@ + error@,
        ),
        Ok(path) => {
            &&& action is Prove
            &&& after == Some(
                Training { step: TrainingStep::SecondBoundary, merged_profile: path, ..before },
            )
        },
    }
}

/// The second proof of the boundary, so that a compiler, wrapper or config source that changed
/// during training is observed.
pub open spec fn proves_boundary_again(
    before: Training,
    proved: Result<PgoPrerequisites, PgoPrerequisiteFailure>,
    after: Option<Training>,
    action: TrainingAction,
) -> bool {
    match proved {
        Err(failure) => after is None && finishes_unproved(action, before.state, failure),
        Ok(prerequisites) => {
            &&& action matches TrainingAction::Plan(stage, injection)
            &&& stage == ShimStage::Use
            &&& injection@ == InjectionView::Use(before.merged_profile@)
            &&& after == Some(
                Training {
                    step: TrainingStep::OptimizedPlan,
                    optimization: Some(prerequisites),
                    ..before
                },
            )
        },
    }
}

/// Whether observed inputs are those of a build.
pub open spec fn observes(inputs: Option<StageInputs>, build: BuildRecord) -> bool {
    match (build.invocation.interposition, build.compiler_evidence) {
        (Some(record), Some(aggregate)) => inputs matches Some(found) && found@
            == inputs_of_evidence(record, aggregate),
        _ => inputs is None,
    }
}

/// Whether a record compares the optimized plan with the instrumented one.
pub open spec fn compares_optimized(
    record: PgoTrainingRecord,
    before: Training,
    selection: TargetSelection,
    plan: BuildPlan,
) -> bool {
    &&& record.base_strategy == before.state.base_strategy
    &&& record.prerequisites == before.state.prerequisites
    &&& record.reference_build == before.state.reference_build
    &&& record.reference_failure == before.state.reference_failure
    &&& record.instrumentation_build == before.state.instrumentation_build
    &&& record.instrumentation_failure == before.state.instrumentation_failure
    &&& record.training_duration_ns == before.state.training_duration_ns
    &&& record.raw_profile_files == before.state.raw_profile_files
    &&& record.merge == before.state.merge
    &&& record.phase_parity.permitted_differences
        == before.state.phase_parity.permitted_differences
    &&& record.phase_parity.reference == before.state.phase_parity.reference
    &&& record.phase_parity.instrumentation == before.state.phase_parity.instrumentation
    &&& record.phase_parity.optimization is Some
    &&& projects(
        record.phase_parity.optimization->0,
        selection@,
        plan,
        before.optimization->0,
    )
    &&& is_decided(record.phase_parity)
}

/// The plan of the optimized stage, which ends the training.
pub open spec fn plans_optimization(
    before: Training,
    selection: TargetSelection,
    planned: Result<InterpositionPlan, String>,
    after: Option<Training>,
    action: TrainingAction,
) -> bool {
    &&& after is None
    &&& match planned {
        Err(message) => finishes_rejected(
            action,
            before.state,
            PgoFailureStage::Prerequisites,
            "pgo_stage_isolation_failed"@,
            message@,
        ),
        Ok(interposition) => match action {
            TrainingAction::Finish(PgoTrainingOutcome::Trained(success)) => {
                &&& is_stage_plan(
                    success.optimized_plan,
                    before.state.base_strategy,
                    BuildStage::PgoOptimized,
                    interposition,
                )
                &&& success.record.outcome == PgoTrainingOutcomeKind::Trained
                &&& compares_optimized(
                    success.record,
                    before,
                    selection,
                    success.optimized_plan,
                )
                &&& success.record.phase_parity.matched
                &&& success.record.failure_stage is None
                &&& success.record.rejection_reason is None
                &&& success.record.message is None
                &&& success.record.remediation is None
                &&& observes(success.reference_inputs, before.state.reference_build->0)
                &&& observes(
                    success.instrumentation_inputs,
                    before.state.instrumentation_build->0,
                )
            },
            TrainingAction::Finish(PgoTrainingOutcome::Rejected(record)) => {
                &&& record.outcome == PgoTrainingOutcomeKind::Rejected
                &&& record.failure_stage == Some(PgoFailureStage::Prerequisites)
                &&& optional_text(record.rejection_reason) == Some("pgo_phase_parity_mismatch"@)
                &&& optional_text(record.message) == Some(
                    "PGO optimization inputs differed from the instrumentation inputs outside the explicit allowlist."@,
                )
                &&& exists|plan: BuildPlan|
                    is_stage_plan(
                        plan,
                        before.state.base_strategy,
                        BuildStage::PgoOptimized,
                        interposition,
                    ) && #[trigger] compares_optimized(record, before, selection, plan)
                &&& !record.phase_parity.matched
                &&& record.remediation is None
            },
            _ => false,
        },
    }
}

/// Whether a training goes on from `before`, through `event`, to `after` and `action`.
pub open spec fn advances(
    before: Training,
    selection: TargetSelection,
    run_directory: Seq<u8>,
    event: TrainingEvent,
    after: Option<Training>,
    action: TrainingAction,
) -> bool {
    match (before.step, event) {
        (TrainingStep::Boundary, TrainingEvent::Proved(proved)) => proves_boundary(
            before,
            proved,
            after,
            action,
        ),
        (TrainingStep::ReferencePlan, TrainingEvent::Planned(planned)) => plans_reference(
            before,
            selection,
            planned,
            after,
            action,
        ),
        (TrainingStep::ReferenceBuild, TrainingEvent::Built(built)) => builds_reference(
            before,
            built,
            after,
            action,
        ),
        (TrainingStep::ProfileDirectory, TrainingEvent::Prepared(prepared)) => prepares_profiles(
            before,
            prepared,
            after,
            action,
        ),
        (
            TrainingStep::InstrumentationPlan,
            TrainingEvent::Planned(planned),
        ) => plans_instrumentation(before, selection, planned, after, action),
        (
            TrainingStep::InstrumentationBuild,
            TrainingEvent::Built(built),
        ) => builds_instrumentation(before, built, after, action),
        (TrainingStep::Workload, TrainingEvent::Ran(ran)) => runs_workload(
            before,
            ran,
            after,
            action,
        ),
        (TrainingStep::Discovery, TrainingEvent::Discovered(found)) => discovers_profiles(
            before,
            run_directory,
            found,
            after,
            action,
        ),
        (TrainingStep::Merge, TrainingEvent::Merged(merge)) => merges_profiles(
            before,
            run_directory,
            merge,
            after,
            action,
        ),
        (TrainingStep::MergedProfile, TrainingEvent::Canonical(canonical)) => finds_merged_profile(
            before,
            canonical,
            after,
            action,
        ),
        (TrainingStep::SecondBoundary, TrainingEvent::Proved(proved)) => proves_boundary_again(
            before,
            proved,
            after,
            action,
        ),
        (TrainingStep::OptimizedPlan, TrainingEvent::Planned(planned)) => plans_optimization(
            before,
            selection,
            planned,
            after,
            action,
        ),
        _ => false,
    }
}

/// A training that ended with a rejection.
fn rejected(
    state: TrainingState,
    stage: PgoFailureStage,
    reason: &str,
    message: String,
) -> (ended: (Option<Training>, TrainingAction))
    ensures
        ended.0 is None,
        finishes_rejected(ended.1, state, stage, reason@, message@),
{
    let record = state.reject(stage, reason, message, None);
    (None, TrainingAction::Finish(PgoTrainingOutcome::Rejected(record)))
}

fn refuse_boundary(state: TrainingState, failure: PgoPrerequisiteFailure) -> (ended: (
    Option<Training>,
    TrainingAction,
))
    ensures
        ended.0 is None,
        finishes_unproved(ended.1, state, failure),
{
    let record = state.reject(
        PgoFailureStage::Prerequisites,
        failure.reason,
        failure.message,
        failure.remediation,
    );
    (None, TrainingAction::Finish(PgoTrainingOutcome::Rejected(record)))
}

fn plan_reference(
    training: Training,
    selection: &TargetSelection,
    planned: Result<InterpositionPlan, String>,
) -> (next: (Option<Training>, TrainingAction))
    requires
        training.state.prerequisites is Some,
    ensures
        plans_reference(training, *selection, planned, next.0, next.1),
{
    let interposition = match planned {
        Ok(plan) => plan,
        Err(message) => return rejected(
            training.state,
            PgoFailureStage::Reference,
            "pgo_stage_isolation_failed",
            message,
        ),
    };
    let mut next = training;
    let plan = BuildPlan::pgo(next.state.base_strategy, BuildStage::PgoReference, interposition);
    if let Some(prerequisites) = &next.state.prerequisites {
        let inputs = phase_inputs(selection, &plan, prerequisites);
        next.state.phase_parity.reference = Some(inputs);
    }
    next.step = TrainingStep::ReferenceBuild;
    (Some(next), TrainingAction::Build(plan))
}

fn plan_instrumentation(
    training: Training,
    selection: &TargetSelection,
    planned: Result<InterpositionPlan, String>,
) -> (next: (Option<Training>, TrainingAction))
    requires
        training.state.prerequisites is Some,
    ensures
        plans_instrumentation(training, *selection, planned, next.0, next.1),
{
    let interposition = match planned {
        Ok(plan) => plan,
        Err(message) => return rejected(
            training.state,
            PgoFailureStage::Instrumentation,
            "pgo_stage_isolation_failed",
            message,
        ),
    };
    let mut next = training;
    let plan = BuildPlan::pgo(
        next.state.base_strategy,
        BuildStage::PgoInstrumentation,
        interposition,
    );
    if let Some(prerequisites) = &next.state.prerequisites {
        let inputs = phase_inputs(selection, &plan, prerequisites);
        next.state.phase_parity.instrumentation = Some(inputs);
    }
    next.step = TrainingStep::InstrumentationBuild;
    (Some(next), TrainingAction::Build(plan))
}

fn plan_optimization(
    training: Training,
    selection: &TargetSelection,
    planned: Result<InterpositionPlan, String>,
) -> (next: (Option<Training>, TrainingAction))
    requires
        training.optimization is Some,
        training.state.reference_build is Some,
        training.state.instrumentation_build is Some,
    ensures
        plans_optimization(training, *selection, planned, next.0, next.1),
{
    let ghost before = training;
    let interposition = match planned {
        Ok(plan) => plan,
        Err(message) => return rejected(
            training.state,
            PgoFailureStage::Prerequisites,
            "pgo_stage_isolation_failed",
            message,
        ),
    };
    let mut state = training.state;
    let plan = BuildPlan::pgo(state.base_strategy, BuildStage::PgoOptimized, interposition);
    if let Some(prerequisites) = &training.optimization {
        state.phase_parity.optimization = Some(phase_inputs(selection, &plan, prerequisites));
    }
    state.phase_parity.decide();
    if !state.phase_parity.matched {
        let record = state.reject(
            PgoFailureStage::Prerequisites,
            "pgo_phase_parity_mismatch",
            "PGO optimization inputs differed from the instrumentation inputs outside the explicit allowlist.".to_owned(),
            None,
        );
        assert(compares_optimized(record, before, *selection, plan));
        return (None, TrainingAction::Finish(PgoTrainingOutcome::Rejected(record)));
    }
    let reference_inputs = match &state.reference_build {
        Some(build) => stage_inputs(&build.invocation.interposition, &build.compiler_evidence),
        None => None,
    };
    let instrumentation_inputs = match &state.instrumentation_build {
        Some(build) => stage_inputs(&build.invocation.interposition, &build.compiler_evidence),
        None => None,
    };
    let success = PgoTrainingSuccess {
        record: state.trained(),
        optimized_plan: plan,
        reference_inputs,
        instrumentation_inputs,
    };
    (None, TrainingAction::Finish(PgoTrainingOutcome::Trained(success)))
}

fn take_build(training: Training, built: Result<BuildRecord, BuildFailure>) -> (next: (
    Option<Training>,
    TrainingAction,
))
    requires
        training.step == TrainingStep::ReferenceBuild || training.step
            == TrainingStep::InstrumentationBuild,
    ensures
        training.step == TrainingStep::ReferenceBuild ==> builds_reference(
            training,
            built,
            next.0,
            next.1,
        ),
        training.step == TrainingStep::InstrumentationBuild ==> builds_instrumentation(
            training,
            built,
            next.0,
            next.1,
        ),
{
    let mut next = training;
    if next.step == TrainingStep::ReferenceBuild {
        match built {
            Ok(build) => {
                next.state.reference_build = Some(build);
                next.step = TrainingStep::ProfileDirectory;
                (Some(next), TrainingAction::PrepareProfiles)
            },
            Err(failure) => {
                let message = failure.message.clone();
                let reason = pgo_build_rejection(&failure, "pgo_reference_failed");
                next.state.reference_failure = Some(failure);
                rejected(next.state, PgoFailureStage::Reference, reason, message)
            },
        }
    } else {
        match built {
            Ok(build) => {
                let executable = build.executable_path.clone();
                let pattern = join(
                    next.raw_directory.as_slice(),
                    "temper-%m-%p.profraw".as_bytes(),
                );
                next.state.instrumentation_build = Some(build);
                next.step = TrainingStep::Workload;
                (Some(next), TrainingAction::Run(executable, pattern))
            },
            Err(failure) => {
                let message = failure.message.clone();
                let reason = pgo_build_rejection(&failure, "pgo_instrumentation_failed");
                next.state.instrumentation_failure = Some(failure);
                rejected(next.state, PgoFailureStage::Instrumentation, reason, message)
            },
        }
    }
}

fn take_run(training: Training, ran: Result<u64, WorkloadFailure>) -> (next: (
    Option<Training>,
    TrainingAction,
))
    ensures
        runs_workload(training, ran, next.0, next.1),
{
    let mut next = training;
    match ran {
        Ok(duration_ns) => {
            let directory = next.raw_directory.clone();
            next.state.training_duration_ns = Some(duration_ns);
            next.step = TrainingStep::Discovery;
            (Some(next), TrainingAction::Discover(directory))
        },
        Err(failure) => {
            let message = failure.message.clone();
            if failure.kind == WorkloadFailureKind::Interrupted {
                let record = next.state.reject(
                    PgoFailureStage::Training,
                    "pgo_training_interrupted",
                    message,
                    None,
                );
                return (
                    None,
                    TrainingAction::Finish(PgoTrainingOutcome::Interrupted(record, failure)),
                );
            }
            rejected(next.state, PgoFailureStage::Training, "pgo_training_failed", message)
        },
    }
}

fn merged_profile_path(run_directory: &[u8]) -> (path: Vec<u8>)
    ensures
        path@ == merged_path(run_directory@),
{
    join(join(run_directory, "pgo".as_bytes()).as_slice(), "merged.profdata".as_bytes())
}

fn take_profiles(
    training: Training,
    run_directory: &[u8],
    discovered: Result<Vec<ProfileFileRecord>, String>,
) -> (next: (Option<Training>, TrainingAction))
    ensures
        discovers_profiles(training, run_directory@, discovered, next.0, next.1),
{
    let mut next = training;
    match discovered {
        Err(message) => rejected(
            next.state,
            PgoFailureStage::ProfileDiscovery,
            "pgo_profile_discovery_failed",
            message,
        ),
        Ok(files) => {
            if files.len() == 0 {
                return rejected(
                    next.state,
                    PgoFailureStage::ProfileDiscovery,
                    "pgo_training_produced_no_profraw_files",
                    "PGO training produced no raw profile files.".to_owned(),
                );
            }
            next.state.raw_profile_files = files;
            next.step = TrainingStep::Merge;
            (Some(next), TrainingAction::Merge(merged_profile_path(run_directory)))
        },
    }
}

fn take_merge(training: Training, run_directory: &[u8], merge: ProfileMergeRecord) -> (next: (
    Option<Training>,
    TrainingAction,
))
    ensures
        merges_profiles(training, run_directory@, merge, next.0, next.1),
{
    let mut next = training;
    let refused: bool = merge.outcome == ProfileMergeOutcome::Rejected;
    let message = match &merge.message {
        Some(message) => message.clone(),
        None => "llvm-profdata merge rejected the profile data.".to_owned(),
    };
    next.state.merge = Some(merge);
    if refused {
        return rejected(
            next.state,
            PgoFailureStage::ProfileMerge,
            "pgo_profile_merge_failed",
            message,
        );
    }
    next.step = TrainingStep::MergedProfile;
    (Some(next), TrainingAction::Canonicalize(merged_profile_path(run_directory)))
}

/// Takes what the last piece of work of a training came to, and says what is to be done next.
pub fn train_pgo(
    training: Training,
    selection: &TargetSelection,
    run_directory: &[u8],
    event: TrainingEvent,
) -> (next: (Option<Training>, TrainingAction))
    requires
        training.well_formed(),
        is_expected(training.step, event),
    ensures
        advances(training, *selection, run_directory@, event, next.0, next.1),
        next.0 is Some ==> next.0->0.well_formed(),
        next.0 is None <==> next.1 is Finish,
{
    match event {
        TrainingEvent::Proved(proved) => match proved {
            Err(failure) => refuse_boundary(training.state, failure),
            Ok(prerequisites) => {
                let mut next = training;
                if next.step == TrainingStep::Boundary {
                    next.state.prerequisites = Some(prerequisites);
                    next.step = TrainingStep::ReferencePlan;
                    (
                        Some(next),
                        TrainingAction::Plan(ShimStage::Reference, Injection::Nothing),
                    )
                } else {
                    let profile = next.merged_profile.clone();
                    next.optimization = Some(prerequisites);
                    next.step = TrainingStep::OptimizedPlan;
                    (Some(next), TrainingAction::Plan(ShimStage::Use, Injection::Use(profile)))
                }
            },
        },
        TrainingEvent::Planned(planned) => {
            if training.step == TrainingStep::ReferencePlan {
                plan_reference(training, selection, planned)
            } else if training.step == TrainingStep::InstrumentationPlan {
                plan_instrumentation(training, selection, planned)
            } else {
                plan_optimization(training, selection, planned)
            }
        },
        TrainingEvent::Built(built) => take_build(training, built),
        TrainingEvent::Prepared(prepared) => match prepared {
            Err(message) => rejected(
                training.state,
                PgoFailureStage::Instrumentation,
                "pgo_profile_directory_failed",
                message,
            ),
            Ok(directory) => {
                let mut next = training;
                let copy = directory.clone();
                next.raw_directory = directory;
                next.step = TrainingStep::InstrumentationPlan;
                (
                    Some(next),
                    TrainingAction::Plan(ShimStage::Generate, Injection::Generate(copy)),
                )
            },
        },
        TrainingEvent::Ran(ran) => take_run(training, ran),
        TrainingEvent::Discovered(discovered) => take_profiles(
            training,
            run_directory,
            discovered,
        ),
        TrainingEvent::Merged(merge) => take_merge(training, run_directory, merge),
        TrainingEvent::Canonical(canonical) => match canonical {
            Err(error) => {
                let message = text2(
                    "Merged PGO profile could not be canonicalized: ",
                    error.as_str(),
                );
                rejected(
                    training.state,
                    PgoFailureStage::ProfileMerge,
                    "pgo_merged_profile_unavailable",
                    message,
                )
            },
            Ok(path) => {
                let mut next = training;
                next.merged_profile = path;
                next.step = TrainingStep::SecondBoundary;
                (Some(next), TrainingAction::Prove)
            },
        },
    }
}

/// A training only succeeds with both stages built, the workload run, raw profiles merged, and
/// the projected inputs of its two phases in agreement.
pub proof fn law_trainings_succeed_only_with_parity(
    before: Training,
    selection: TargetSelection,
    run_directory: Seq<u8>,
    event: TrainingEvent,
    after: Option<Training>,
    action: TrainingAction,
)
    requires
        before.well_formed(),
        advances(before, selection, run_directory, event, after, action),
        action matches TrainingAction::Finish(PgoTrainingOutcome::Trained(_)),
    ensures
        before.step == TrainingStep::OptimizedPlan,
        ({
            let record = action->Finish_0->Trained_0.record;
            &&& record.phase_parity.matched
            &&& phases_agree(
                record.phase_parity.instrumentation->0,
                record.phase_parity.optimization->0,
            )
            &&& record.reference_build is Some
            &&& record.instrumentation_build is Some
            &&& record.training_duration_ns is Some
            &&& record.raw_profile_files@.len() > 0
            &&& record.merge is Some
            &&& record.merge->0.outcome == ProfileMergeOutcome::Merged
        }),
{
    let record = action->Finish_0->Trained_0.record;
    law_phases_match_only_when_they_agree(record.phase_parity);
}

/// What a training that ended has recorded.
pub open spec fn outcome_record(outcome: PgoTrainingOutcome) -> PgoTrainingRecord {
    match outcome {
        PgoTrainingOutcome::Trained(success) => success.record,
        PgoTrainingOutcome::Rejected(record) => record,
        PgoTrainingOutcome::Interrupted(record, _) => record,
    }
}

/// The allowlist that a training starts with is the one that it goes on with and that it records,
/// however it ends; so is its strategy.
pub proof fn law_trainings_keep_their_allowlist(
    before: Training,
    selection: TargetSelection,
    run_directory: Seq<u8>,
    event: TrainingEvent,
    after: Option<Training>,
    action: TrainingAction,
)
    requires
        labels(before.state.phase_parity.permitted_differences@) == permitted(),
        advances(before, selection, run_directory, event, after, action),
    ensures
        after matches Some(next) ==> {
            &&& labels(next.state.phase_parity.permitted_differences@) == permitted()
            &&& next.state.base_strategy == before.state.base_strategy
        },
        action matches TrainingAction::Finish(outcome) ==> {
            let record = outcome_record(outcome);
            &&& labels(record.phase_parity.permitted_differences@) == permitted()
            &&& record.base_strategy == before.state.base_strategy
            &&& is_decided(record.phase_parity)
        },
{
}

/// A training whose boundary is refused at once records nothing but its refusal.
pub proof fn law_refused_boundaries_record_nothing(
    before: Training,
    selection: TargetSelection,
    run_directory: Seq<u8>,
    failure: PgoPrerequisiteFailure,
    after: Option<Training>,
    action: TrainingAction,
)
    requires
        before.step == TrainingStep::Boundary,
        is_new_state(before.state, before.state.base_strategy),
        advances(
            before,
            selection,
            run_directory,
            TrainingEvent::Proved(Err(failure)),
            after,
            action,
        ),
    ensures
        after is None,
        action matches TrainingAction::Finish(PgoTrainingOutcome::Rejected(record)) && {
            &&& record.failure_stage == Some(PgoFailureStage::Prerequisites)
            &&& optional_text(record.rejection_reason) == Some(failure.reason@)
            &&& optional_text(record.message) == Some(failure.message@)
            &&& record.remediation == failure.remediation
            &&& record.prerequisites is None
            &&& record.reference_build is None
            &&& record.reference_failure is None
            &&& record.instrumentation_build is None
            &&& record.instrumentation_failure is None
            &&& record.training_duration_ns is None
            &&& record.raw_profile_files@.len() == 0
            &&& record.merge is None
            &&& record.phase_parity.reference is None
            &&& record.phase_parity.instrumentation is None
            &&& record.phase_parity.optimization is None
            &&& !record.phase_parity.matched
        },
{
}

/// Every step of a training goes forward: there are at most twelve.
pub proof fn law_trainings_go_forward(
    before: Training,
    selection: TargetSelection,
    run_directory: Seq<u8>,
    event: TrainingEvent,
    after: Training,
    action: TrainingAction,
)
    requires
        advances(before, selection, run_directory, event, Some(after), action),
    ensures
        step_place(after.step) == step_place(before.step) + 1,
        step_place(after.step) < 12,
{
}

/// A training goes from step to step with what the last one made: it plans the reference without
/// controls, builds it, prepares a directory, plans a build that writes profiles there, runs it by
/// the pattern of that directory, discovers what it wrote there, merges it, proves the boundary
/// again and plans a build that uses the merged profile.
pub proof fn law_trainings_use_what_they_made(
    before: Training,
    selection: TargetSelection,
    run_directory: Seq<u8>,
    event: TrainingEvent,
    after: Training,
    action: TrainingAction,
)
    requires
        is_expected(before.step, event),
        advances(before, selection, run_directory, event, Some(after), action),
    ensures
        before.step == TrainingStep::Boundary ==> after.state.prerequisites == Some(
            event->Proved_0->Ok_0,
        ) && action is Plan && action->Plan_0 == ShimStage::Reference && action->Plan_1 is Nothing,
        before.step == TrainingStep::ReferencePlan ==> action is Build && action->Build_0.stage
            == BuildStage::PgoReference && action->Build_0.interposition == Some(
            event->Planned_0->Ok_0,
        ) && action->Build_0.target_directory@ == event->Planned_0->Ok_0.target_directory@ && texts(
            action->Build_0.cargo_config_overrides@,
        ) == overrides_of(before.state.base_strategy),
        before.step == TrainingStep::ReferenceBuild ==> after.state.reference_build == Some(
            event->Built_0->Ok_0,
        ) && action is PrepareProfiles,
        before.step == TrainingStep::ProfileDirectory ==> after.raw_directory
            == event->Prepared_0->Ok_0 && action is Plan && action->Plan_0 == ShimStage::Generate
            && action->Plan_1@ == InjectionView::Generate(event->Prepared_0->Ok_0@),
        before.step == TrainingStep::InstrumentationPlan ==> action is Build
            && action->Build_0.stage == BuildStage::PgoInstrumentation
            && action->Build_0.interposition == Some(event->Planned_0->Ok_0)
            && action->Build_0.target_directory@ == event->Planned_0->Ok_0.target_directory@
            && texts(action->Build_0.cargo_config_overrides@) == overrides_of(
            before.state.base_strategy,
        ),
        before.step == TrainingStep::InstrumentationBuild ==> after.state.instrumentation_build
            == Some(event->Built_0->Ok_0) && action is Run && action->Run_0@
            == event->Built_0->Ok_0.executable_path@ && action->Run_1@ == join_path(
            before.raw_directory@,
            encode_utf8("temper-%m-%p.profraw"@),
        ),
        before.step == TrainingStep::Workload ==> after.state.training_duration_ns == Some(
            event->Ran_0->Ok_0,
        ) && action is Discover && action->Discover_0@ == before.raw_directory@,
        before.step == TrainingStep::Discovery ==> after.state.raw_profile_files
            == event->Discovered_0->Ok_0 && after.state.raw_profile_files@.len() > 0 && action
            is Merge && action->Merge_0@ == join_path(
            join_path(run_directory, encode_utf8("pgo"@)),
            encode_utf8("merged.profdata"@),
        ),
        before.step == TrainingStep::Merge ==> after.state.merge == Some(event->Merged_0)
            && event->Merged_0.outcome != ProfileMergeOutcome::Rejected && action is Canonicalize
            && action->Canonicalize_0@ == join_path(
            join_path(run_directory, encode_utf8("pgo"@)),
            encode_utf8("merged.profdata"@),
        ),
        before.step == TrainingStep::MergedProfile ==> after.merged_profile
            == event->Canonical_0->Ok_0 && action is Prove,
        before.step == TrainingStep::SecondBoundary ==> after.optimization == Some(
            event->Proved_0->Ok_0,
        ) && action is Plan && action->Plan_0 == ShimStage::Use && action->Plan_1@
            == InjectionView::Use(before.merged_profile@),
        before.step != TrainingStep::OptimizedPlan,
        before.step != TrainingStep::Boundary ==> after.state.prerequisites
            == before.state.prerequisites,
        before.step != TrainingStep::ReferenceBuild ==> after.state.reference_build
            == before.state.reference_build,
        before.step != TrainingStep::InstrumentationBuild ==> after.state.instrumentation_build
            == before.state.instrumentation_build,
        before.step != TrainingStep::Workload ==> after.state.training_duration_ns
            == before.state.training_duration_ns,
        before.step != TrainingStep::Discovery ==> after.state.raw_profile_files
            == before.state.raw_profile_files,
        before.step != TrainingStep::Merge ==> after.state.merge == before.state.merge,
        before.step != TrainingStep::ProfileDirectory ==> after.raw_directory
            == before.raw_directory,
        before.step != TrainingStep::MergedProfile ==> after.merged_profile
            == before.merged_profile,
{
}

/// Whether a training ends rejected at a stage, for a reason, with every fact gathered so far.
pub open spec fn ends_rejected(
    before: Training,
    after: Option<Training>,
    action: TrainingAction,
    stage: PgoFailureStage,
    reason: Seq<char>,
) -> bool {
    &&& after is None
    &&& action matches TrainingAction::Finish(outcome)
    &&& outcome is Rejected
    &&& outcome->Rejected_0.outcome == PgoTrainingOutcomeKind::Rejected
    &&& outcome->Rejected_0.failure_stage == Some(stage)
    &&& optional_text(outcome->Rejected_0.rejection_reason) == Some(reason)
    &&& outcome->Rejected_0.base_strategy == before.state.base_strategy
    &&& outcome->Rejected_0.prerequisites == before.state.prerequisites
    &&& outcome->Rejected_0.reference_build == before.state.reference_build
    &&& outcome->Rejected_0.instrumentation_build == before.state.instrumentation_build
    &&& outcome->Rejected_0.training_duration_ns == before.state.training_duration_ns
    &&& outcome->Rejected_0.raw_profile_files == before.state.raw_profile_files
}

/// A training ends at the first step that fails, at the stage of that step and for its reason, and
/// keeps the facts that it gathered before.
pub proof fn law_failed_steps_end_the_training(
    before: Training,
    selection: TargetSelection,
    run_directory: Seq<u8>,
    event: TrainingEvent,
    after: Option<Training>,
    action: TrainingAction,
)
    requires
        is_expected(before.step, event),
        advances(before, selection, run_directory, event, after, action),
    ensures
        event is Proved && event->Proved_0 is Err ==> ends_rejected(
            before,
            after,
            action,
            PgoFailureStage::Prerequisites,
            event->Proved_0->Err_0.reason@,
        ),
        event is Planned && event->Planned_0 is Err ==> ends_rejected(
            before,
            after,
            action,
            match before.step {
                TrainingStep::ReferencePlan => PgoFailureStage::Reference,
                TrainingStep::InstrumentationPlan => PgoFailureStage::Instrumentation,
                _ => PgoFailureStage::Prerequisites,
            },
            "pgo_stage_isolation_failed"@,
        ),
        event is Built && event->Built_0 is Err && !is_compiler_input_reason(
            event->Built_0->Err_0.reason@,
        ) ==> ends_rejected(
            before,
            after,
            action,
            if before.step == TrainingStep::ReferenceBuild {
                PgoFailureStage::Reference
            } else {
                PgoFailureStage::Instrumentation
            },
            if before.step == TrainingStep::ReferenceBuild {
                "pgo_reference_failed"@
            } else {
                "pgo_instrumentation_failed"@
            },
        ),
        event is Built && event->Built_0 is Err && is_compiler_input_reason(
            event->Built_0->Err_0.reason@,
        ) ==> ends_rejected(
            before,
            after,
            action,
            if before.step == TrainingStep::ReferenceBuild {
                PgoFailureStage::Reference
            } else {
                PgoFailureStage::Instrumentation
            },
            event->Built_0->Err_0.reason@,
        ),
        event is Prepared && event->Prepared_0 is Err ==> ends_rejected(
            before,
            after,
            action,
            PgoFailureStage::Instrumentation,
            "pgo_profile_directory_failed"@,
        ),
        event is Ran && event->Ran_0 is Err && event->Ran_0->Err_0.kind
            != WorkloadFailureKind::Interrupted ==> ends_rejected(
            before,
            after,
            action,
            PgoFailureStage::Training,
            "pgo_training_failed"@,
        ),
        event is Ran && event->Ran_0 is Err && event->Ran_0->Err_0.kind
            == WorkloadFailureKind::Interrupted ==> after is None && action is Finish
            && action->Finish_0 is Interrupted,
        event is Discovered && event->Discovered_0 is Err ==> ends_rejected(
            before,
            after,
            action,
            PgoFailureStage::ProfileDiscovery,
            "pgo_profile_discovery_failed"@,
        ),
        event is Discovered && event->Discovered_0 is Ok && event->Discovered_0->Ok_0@.len() == 0
            ==> ends_rejected(
            before,
            after,
            action,
            PgoFailureStage::ProfileDiscovery,
            "pgo_training_produced_no_profraw_files"@,
        ),
        event is Merged && event->Merged_0.outcome == ProfileMergeOutcome::Rejected
            ==> ends_rejected(
            before,
            after,
            action,
            PgoFailureStage::ProfileMerge,
            "pgo_profile_merge_failed"@,
        ),
        event is Canonical && event->Canonical_0 is Err ==> ends_rejected(
            before,
            after,
            action,
            PgoFailureStage::ProfileMerge,
            "pgo_merged_profile_unavailable"@,
        ),
{
}

} // verus!
