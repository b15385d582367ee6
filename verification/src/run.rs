//! The durable state of one run, and what is reported of it.

use vstd::prelude::*;
use vstd::string::*;
use vstd::utf8::*;

use crate::cargo::{show_words, shown, BuildFailure, BuildRecord, TargetSelection};
use crate::error::TemperError;
use crate::interposition::{InterpositionPlan, InterpositionRecord};
use crate::measurement::{ConfirmationResult, MeasurementOutcome, ScreeningResult};
use crate::parity::CompilerParityRecord;
use crate::paths::{join, join_path, lies_within, starts_with};
use crate::preflight::{PreflightRecord, SourceReproducibility};
use crate::promotion::PromotionRecord;
use crate::strategy::{confirmation_directory, identity_label, BuildPlan, BuildStage, Strategy};
use crate::text::{
    byte_strings, copy_texts, decimal, decimal_text, decimal_wide, lossy, lossy_text, optional_text, same_text,
    text2, text3, text4, text5, texts,
};
use crate::training::PgoTrainingRecord;
use crate::workload::{WorkloadFailure, WorkloadFailureKind, WorkloadFailureView};

verus! {

/// The version of the persisted report.
pub const SCHEMA_VERSION: u8 = 2;

/// The most lines that a report for a terminal may have.
pub const HUMAN_REPORT_LINE_LIMIT: usize = 25;

pub const COMPATIBILITY: &'static str = "No backward-compatibility promise during 0.x.";

/// What is said of a failed promotion whose own failure could not be recorded.
pub const EMERGENCY_MESSAGE: &'static str =
    "The promotion failed and its own failure record could not be written.";

#[derive(Clone, Copy, Debug, PartialEq, Eq, Structural)]
pub enum RunStatus {
    BaselineBuild,
    StaticBuilds,
    Screening,
    PgoTraining,
    PgoBuild,
    CandidateSelection,
    Confirmation,
    Promotion,
    Confirmed,
    NoImprovement,
    Interrupted,
    Failed,
}

#[derive(Clone, Copy, Debug, PartialEq, Eq, Structural)]
pub enum CompletedPhase {
    Preflight,
    BaselineBuild,
    StaticBuilds,
    Screening,
    PgoTraining,
    PgoBuild,
    CandidateSelection,
    Confirmation,
    Promotion,
}

#[derive(Clone, Copy, Debug, PartialEq, Eq, Structural)]
pub enum FinalDecision {
    Pending,
    Confirmed,
    NoImprovement,
    Interrupted,
    Failed,
}

/// The name of a decision.
pub open spec fn decision_text(decision: FinalDecision) -> Seq<char> {
    match decision {
        FinalDecision::Pending => "pending"@,
        FinalDecision::Confirmed => "confirmed"@,
        FinalDecision::NoImprovement => "no_improvement"@,
        FinalDecision::Interrupted => "interrupted"@,
        FinalDecision::Failed => "failed"@,
    }
}

pub fn decision_label(decision: FinalDecision) -> (label: &'static str)
    ensures
        label@ == decision_text(decision),
{
    match decision {
        FinalDecision::Pending => "pending",
        FinalDecision::Confirmed => "confirmed",
        FinalDecision::NoImprovement => "no_improvement",
        FinalDecision::Interrupted => "interrupted",
        FinalDecision::Failed => "failed",
    }
}

/// Why a strategy is rejected whose workload failed.
pub open spec fn rejection_text(kind: WorkloadFailureKind) -> Seq<char> {
    match kind {
        WorkloadFailureKind::Timeout => "timeout"@,
        WorkloadFailureKind::OutputLimit => "output_limit"@,
        WorkloadFailureKind::Interrupted => "interrupted"@,
        _ => "workload_failed"@,
    }
}

pub fn workload_rejection_reason(kind: WorkloadFailureKind) -> (reason: &'static str)
    ensures
        reason@ == rejection_text(kind),
{
    match kind {
        WorkloadFailureKind::Timeout => "timeout",
        WorkloadFailureKind::OutputLimit => "output_limit",
        WorkloadFailureKind::Interrupted => "interrupted",
        _ => "workload_failed",
    }
}

/// What was asked for. The minimum improvement is given by the bits of a double.
#[derive(Debug)]
pub struct RequestRecord {
    pub minimum_improvement_percent: u64,
    pub timeout_seconds: u64,
    pub workload_executable: String,
    pub workload_arguments: Vec<String>,
}

/// What a run is about; it does not change while it runs.
#[derive(Debug)]
pub struct RunHead {
    pub schema_version: u8,
    pub experimental: bool,
    pub compatibility: &'static str,
    pub cli_version: String,
    pub run_id: String,
    pub source_reproducibility: SourceReproducibility,
    pub request: RequestRecord,
    pub preflight: PreflightRecord,
    pub target: TargetSelection,
}

impl RunHead {
    /// The head of a run of this version of the report.
    pub fn new(
        cli_version: String,
        run_id: String,
        source_reproducibility: SourceReproducibility,
        request: RequestRecord,
        preflight: PreflightRecord,
        target: TargetSelection,
    ) -> (head: RunHead)
        ensures
            head.schema_version == SCHEMA_VERSION,
            head.experimental,
            head.compatibility@ == COMPATIBILITY@,
            head.cli_version == cli_version,
            head.run_id == run_id,
            head.source_reproducibility == source_reproducibility,
            head.request == request,
            head.preflight == preflight,
            head.target == target,
    {
        RunHead {
            schema_version: SCHEMA_VERSION,
            experimental: true,
            compatibility: COMPATIBILITY,
            cli_version,
            run_id,
            source_reproducibility,
            request,
            preflight,
            target,
        }
    }
}

/// Why a run failed.
#[derive(Debug)]
pub struct FailureRecord {
    pub phase: &'static str,
    pub outcome: Option<WorkloadFailureKind>,
    pub message: String,
    pub bounded_diagnostics: String,
    pub diagnostics_truncated: bool,
    pub build_failure: Option<BuildFailure>,
}

/// What replaces the status, the decision and the failure of a run in an emergency.
#[derive(Debug)]
pub struct EmergencyRecord {
    pub status: RunStatus,
    pub final_decision: FinalDecision,
    pub failure: FailureRecord,
}

/// Why a run failed, as sequences.
pub struct FailureView {
    pub phase: Seq<char>,
    pub outcome: Option<WorkloadFailureKind>,
    pub message: Seq<char>,
    pub bounded_diagnostics: Seq<char>,
    pub diagnostics_truncated: bool,
    pub build_failure: Option<BuildFailure>,
}

impl View for FailureRecord {
    type V = FailureView;

    open spec fn view(&self) -> FailureView {
        FailureView {
            phase: self.phase@,
            outcome: self.outcome,
            message: self.message@,
            bounded_diagnostics: self.bounded_diagnostics@,
            diagnostics_truncated: self.diagnostics_truncated,
            build_failure: self.build_failure,
        }
    }
}

/// What became of one strategy.
#[derive(Debug)]
pub struct StrategyRecord {
    pub identity: Strategy,
    pub build: Option<BuildRecord>,
    pub build_failure: Option<BuildFailure>,
    pub screening: Option<ScreeningResult>,
    pub workload_failure: Option<WorkloadFailure>,
    pub rejection_reason: Option<String>,
}

/// What became of one strategy, as sequences.
#[verifier::ext_equal]
pub struct StrategyView {
    pub identity: Strategy,
    pub build: Option<BuildRecord>,
    pub build_failure: Option<BuildFailure>,
    pub screening: Option<ScreeningResult>,
    pub workload_failure: Option<WorkloadFailureView>,
    pub rejection_reason: Option<Seq<char>>,
}

/// The view of an optional workload failure.
pub open spec fn optional_failure(failure: Option<WorkloadFailure>) -> Option<
    WorkloadFailureView,
> {
    match failure {
        Some(found) => Some(found@),
        None => None,
    }
}

impl View for StrategyRecord {
    type V = StrategyView;

    open spec fn view(&self) -> StrategyView {
        StrategyView {
            identity: self.identity,
            build: self.build,
            build_failure: self.build_failure,
            screening: self.screening,
            workload_failure: optional_failure(self.workload_failure),
            rejection_reason: optional_text(self.rejection_reason),
        }
    }
}

#[derive(Clone, Copy, Debug, PartialEq, Eq, Structural)]
pub enum ConfirmationOutcome {
    Pending,
    Accepted,
    Rejected,
}

/// What became of the confirmation.
#[derive(Debug)]
pub struct ConfirmationRecord {
    pub strategy: Option<Strategy>,
    pub outcome: ConfirmationOutcome,
    pub baseline_build: Option<BuildRecord>,
    pub baseline_build_failure: Option<BuildFailure>,
    pub candidate_build: Option<BuildRecord>,
    pub candidate_build_failure: Option<BuildFailure>,
    pub compiler_parity: Option<CompilerParityRecord>,
    pub measurement: Option<ConfirmationResult>,
    pub workload_failure: Option<WorkloadFailure>,
    pub rejection_reason: Option<String>,
}

/// What became of the confirmation, as sequences.
#[verifier::ext_equal]
pub struct ConfirmationRecordView {
    pub strategy: Option<Strategy>,
    pub outcome: ConfirmationOutcome,
    pub baseline_build: Option<BuildRecord>,
    pub baseline_build_failure: Option<BuildFailure>,
    pub candidate_build: Option<BuildRecord>,
    pub candidate_build_failure: Option<BuildFailure>,
    pub compiler_parity: Option<CompilerParityRecord>,
    pub measurement: Option<ConfirmationResult>,
    pub workload_failure: Option<WorkloadFailureView>,
    pub rejection_reason: Option<Seq<char>>,
}

impl View for ConfirmationRecord {
    type V = ConfirmationRecordView;

    open spec fn view(&self) -> ConfirmationRecordView {
        ConfirmationRecordView {
            strategy: self.strategy,
            outcome: self.outcome,
            baseline_build: self.baseline_build,
            baseline_build_failure: self.baseline_build_failure,
            candidate_build: self.candidate_build,
            candidate_build_failure: self.candidate_build_failure,
            compiler_parity: self.compiler_parity,
            measurement: self.measurement,
            workload_failure: optional_failure(self.workload_failure),
            rejection_reason: optional_text(self.rejection_reason),
        }
    }
}

/// A confirmation of which nothing is known yet.
pub open spec fn pending_confirmation(strategy: Option<Strategy>) -> ConfirmationRecordView {
    ConfirmationRecordView {
        strategy,
        outcome: ConfirmationOutcome::Pending,
        baseline_build: None,
        baseline_build_failure: None,
        candidate_build: None,
        candidate_build_failure: None,
        compiler_parity: None,
        measurement: None,
        workload_failure: None,
        rejection_reason: None,
    }
}

impl ConfirmationRecord {
    pub fn pending(strategy: Option<Strategy>) -> (record: ConfirmationRecord)
        ensures
            record@ == pending_confirmation(strategy),
    {
        ConfirmationRecord {
            strategy,
            outcome: ConfirmationOutcome::Pending,
            baseline_build: None,
            baseline_build_failure: None,
            candidate_build: None,
            candidate_build_failure: None,
            compiler_parity: None,
            measurement: None,
            workload_failure: None,
            rejection_reason: None,
        }
    }
}

/// The durable state of one run.
#[derive(Debug)]
pub struct RunManifest {
    pub head: RunHead,
    pub status: RunStatus,
    pub completed_phases: Vec<CompletedPhase>,
    pub final_decision: FinalDecision,
    pub baseline: Option<BuildRecord>,
    pub baseline_measurement: Option<ScreeningResult>,
    pub strategies: Vec<StrategyRecord>,
    pub pgo_base_strategy: Option<Strategy>,
    pub pgo_training: Option<PgoTrainingRecord>,
    pub pgo_parity: Option<CompilerParityRecord>,
    pub selected_candidate: Option<Strategy>,
    pub confirmation: Option<ConfirmationRecord>,
    pub promotion: Option<PromotionRecord>,
    pub failure: Option<FailureRecord>,
}

/// The durable state of one run, as sequences.
#[verifier::ext_equal]
pub struct ManifestView {
    pub head: RunHead,
    pub status: RunStatus,
    pub completed_phases: Seq<CompletedPhase>,
    pub final_decision: FinalDecision,
    pub baseline: Option<BuildRecord>,
    pub baseline_measurement: Option<ScreeningResult>,
    pub strategies: Seq<StrategyView>,
    pub pgo_base_strategy: Option<Strategy>,
    pub pgo_training: Option<PgoTrainingRecord>,
    pub pgo_parity: Option<CompilerParityRecord>,
    pub selected_candidate: Option<Strategy>,
    pub confirmation: Option<ConfirmationRecordView>,
    pub promotion: Option<PromotionRecord>,
    pub failure: Option<FailureView>,
}

/// The views of strategy records.
pub open spec fn strategy_views(strategies: Seq<StrategyRecord>) -> Seq<StrategyView> {
    strategies.map_values(|record: StrategyRecord| record@)
}

impl View for RunManifest {
    type V = ManifestView;

    open spec fn view(&self) -> ManifestView {
        ManifestView {
            head: self.head,
            status: self.status,
            completed_phases: self.completed_phases@,
            final_decision: self.final_decision,
            baseline: self.baseline,
            baseline_measurement: self.baseline_measurement,
            strategies: strategy_views(self.strategies@),
            pgo_base_strategy: self.pgo_base_strategy,
            pgo_training: self.pgo_training,
            pgo_parity: self.pgo_parity,
            selected_candidate: self.selected_candidate,
            confirmation: match self.confirmation {
                Some(record) => Some(record@),
                None => None,
            },
            promotion: self.promotion,
            failure: match self.failure {
                Some(record) => Some(record@),
                None => None,
            },
        }
    }
}

/// The phases with one more, unless it is there.
pub open spec fn with_phase(phases: Seq<CompletedPhase>, phase: CompletedPhase) -> Seq<
    CompletedPhase,
> {
    if phases.contains(phase) {
        phases
    } else {
        phases.push(phase)
    }
}

/// A run whose phase is complete, and which goes on.
pub open spec fn transitioned(
    run: ManifestView,
    completed: CompletedPhase,
    next: RunStatus,
) -> ManifestView {
    ManifestView {
        completed_phases: with_phase(run.completed_phases, completed),
        status: next,
        ..run
    }
}

/// A run with one more strategy.
pub open spec fn with_strategy(run: ManifestView, record: StrategyView) -> ManifestView {
    ManifestView { strategies: run.strategies.push(record), ..run }
}

/// A strategy of which only its identity is known.
pub open spec fn bare_strategy(identity: Strategy) -> StrategyView {
    StrategyView {
        identity,
        build: None,
        build_failure: None,
        screening: None,
        workload_failure: None,
        rejection_reason: None,
    }
}

/// Where a strategy first stands, at or after `from`.
pub open spec fn strategy_place(
    strategies: Seq<StrategyView>,
    wanted: Strategy,
    from: int,
) -> Option<int>
    decreases strategies.len() - from,
{
    if from < 0 || from >= strategies.len() {
        None
    } else if strategies[from].identity == wanted {
        Some(from)
    } else {
        strategy_place(strategies, wanted, from + 1)
    }
}

/// The message about a strategy that was never built.
pub open spec fn no_record_message(strategy: Strategy) -> Seq<char> {
    "Strategy "@ + identity_label(strategy) + " has no persisted build record."@
}

/// A failed run.
pub open spec fn failed(run: ManifestView, failure: FailureView) -> ManifestView {
    let interrupted = failure.outcome == Some(WorkloadFailureKind::Interrupted);
    ManifestView {
        status: if interrupted {
            RunStatus::Interrupted
        } else {
            RunStatus::Failed
        },
        final_decision: if interrupted {
            FinalDecision::Interrupted
        } else {
            FinalDecision::Failed
        },
        failure: Some(failure),
        ..run
    }
}

/// The failure of a workload in a phase.
pub open spec fn workload_failure_in(phase: Seq<char>, failure: WorkloadFailureView) -> FailureView {
    FailureView {
        phase,
        outcome: Some(failure.kind),
        message: failure.message,
        bounded_diagnostics: failure.bounded_diagnostics,
        diagnostics_truncated: failure.diagnostics_truncated,
        build_failure: None,
    }
}

/// A failure with nothing but a message.
pub open spec fn bare_failure(
    phase: Seq<char>,
    outcome: Option<WorkloadFailureKind>,
    message: Seq<char>,
) -> FailureView {
    FailureView {
        phase,
        outcome,
        message,
        bounded_diagnostics: Seq::empty(),
        diagnostics_truncated: false,
        build_failure: None,
    }
}

/// The strategies after the selected one was not confirmed.
pub open spec fn unconfirmed_strategies(run: ManifestView) -> Seq<StrategyView> {
    match run.selected_candidate {
        None => run.strategies,
        Some(selected) => match strategy_place(run.strategies, selected, 0) {
            None => run.strategies,
            Some(place) => run.strategies.update(
                place,
                StrategyView {
                    rejection_reason: Some("confirmation_rejected"@),
                    ..run.strategies[place]
                },
            ),
        },
    }
}

/// A run that found no improvement.
pub open spec fn without_improvement(run: ManifestView) -> ManifestView {
    ManifestView {
        strategies: unconfirmed_strategies(run),
        completed_phases: with_phase(run.completed_phases, CompletedPhase::Confirmation),
        status: RunStatus::NoImprovement,
        final_decision: FinalDecision::NoImprovement,
        ..run
    }
}

/// A run with another confirmation record.
pub open spec fn with_confirmation(
    run: ManifestView,
    confirmation: ConfirmationRecordView,
) -> ManifestView {
    ManifestView { confirmation: Some(confirmation), ..run }
}

/// A rejected confirmation.
pub open spec fn rejected_confirmation(
    confirmation: ConfirmationRecordView,
    reason: Seq<char>,
) -> ConfirmationRecordView {
    ConfirmationRecordView {
        outcome: ConfirmationOutcome::Rejected,
        rejection_reason: Some(reason),
        ..confirmation
    }
}

/// Why a measured confirmation is rejected, if it is.
pub open spec fn measurement_rejection(outcome: MeasurementOutcome) -> Option<Seq<char>> {
    match outcome {
        MeasurementOutcome::UnstableMeasurement => Some("unstable_measurement"@),
        MeasurementOutcome::InsufficientImprovement => Some("insufficient_improvement"@),
        MeasurementOutcome::Accepted => None,
        MeasurementOutcome::Stable => Some("invalid_confirmation_outcome"@),
    }
}

/// A measured confirmation.
pub open spec fn measured_confirmation(
    confirmation: ConfirmationRecordView,
    measurement: ConfirmationResult,
) -> ConfirmationRecordView {
    ConfirmationRecordView {
        outcome: if measurement.outcome == MeasurementOutcome::Accepted {
            ConfirmationOutcome::Accepted
        } else {
            ConfirmationOutcome::Rejected
        },
        rejection_reason: measurement_rejection(measurement.outcome),
        measurement: Some(measurement),
        ..confirmation
    }
}

/// The accepted candidate, or why there is none.
pub open spec fn accepted_candidate(run: ManifestView) -> Result<(Strategy, BuildRecord), Seq<char>> {
    match run.confirmation {
        None => Err("Confirmation record is unavailable."@),
        Some(confirmation) => if confirmation.outcome != ConfirmationOutcome::Accepted {
            Err("Only an accepted confirmation can enter promotion."@)
        } else {
            match confirmation.strategy {
                None => Err("Accepted confirmation has no candidate strategy."@),
                Some(strategy) => match confirmation.candidate_build {
                    None => Err("Accepted confirmation has no candidate build record."@),
                    Some(build) => Ok((strategy, build)),
                },
            }
        },
    }
}

/// Whether a promotion is that of the accepted candidate.
pub open spec fn promotes(promotion: PromotionRecord, strategy: Strategy, build: BuildRecord) -> bool {
    &&& promotion.source_strategy == strategy
    &&& promotion.source_sha256@ == build.sha256@
    &&& promotion.promoted_sha256@ == build.sha256@
}

/// One thing that happens to a run.
pub enum Transition {
    BaselineBuilt(BuildRecord),
    BaselineFailed(BuildFailure),
    StaticBuilt(BuildRecord),
    StaticRejected(BuildFailure),
    ScreeningBegun,
    BaselineScreened(ScreeningResult),
    StrategyScreened(Strategy, ScreeningResult),
    StrategyRejected(Strategy, WorkloadFailureView),
    ScreeningCompleted(Strategy),
    PgoTrained(PgoTrainingRecord),
    PgoTrainingFailed(PgoTrainingRecord, WorkloadFailureView),
    PgoMatched(CompilerParityRecord),
    PgoMismatched(BuildRecord, CompilerParityRecord),
    PgoBuilt(BuildRecord),
    PgoRejected(BuildFailure),
    PgoSkipped,
    PgoCompleted,
    CandidateSelected(Option<Strategy>),
    NoCandidate,
    ConfirmationBaseline(BuildRecord),
    ConfirmationBaselineFailed(BuildFailure),
    ConfirmationCandidate(BuildRecord),
    ConfirmationCandidateRejected(BuildFailure),
    ConfirmationMatched(CompilerParityRecord),
    ConfirmationMismatched(BuildRecord, CompilerParityRecord),
    ConfirmationWorkloadRejected(WorkloadFailureView),
    ConfirmationWorkloadFailed(WorkloadFailureView),
    ConfirmationChanged(Seq<char>),
    ConfirmationMeasured(ConfirmationResult),
    Promoted(PromotionRecord),
    PromotionFailed(Seq<char>, bool),
    WorkloadFailed(Seq<char>, WorkloadFailureView),
    Interrupted(Seq<char>, Seq<char>),
}

/// A run after a change of its confirmation, or why there is none.
pub open spec fn confirmation_of(run: ManifestView) -> Result<ConfirmationRecordView, Seq<char>> {
    match run.confirmation {
        Some(confirmation) => Ok(confirmation),
        None => Err("Confirmation record is unavailable."@),
    }
}

/// A run after something that concerns its confirmation.
pub open spec fn confirmation_transition(
    run: ManifestView,
    confirmation: ConfirmationRecordView,
    transition: Transition,
) -> ManifestView {
    match transition {
        Transition::NoCandidate => without_improvement(
            with_confirmation(run, rejected_confirmation(confirmation, "no_valid_candidate"@)),
        ),
        Transition::ConfirmationBaseline(build) => with_confirmation(
            run,
            ConfirmationRecordView { baseline_build: Some(build), ..confirmation },
        ),
        Transition::ConfirmationBaselineFailed(failure) => failed(
            with_confirmation(
                run,
                rejected_confirmation(
                    ConfirmationRecordView {
                        baseline_build_failure: Some(failure),
                        ..confirmation
                    },
                    "confirmation_baseline_build_failed"@,
                ),
            ),
            FailureView {
                phase: "confirmation_baseline_build"@,
                outcome: None,
                message: failure.message@,
                bounded_diagnostics: failure.bounded_diagnostics@,
                diagnostics_truncated: failure.diagnostics_truncated,
                build_failure: None,
            },
        ),
        Transition::ConfirmationCandidate(build) => with_confirmation(
            run,
            ConfirmationRecordView { candidate_build: Some(build), ..confirmation },
        ),
        Transition::ConfirmationCandidateRejected(failure) => without_improvement(
            with_confirmation(
                run,
                rejected_confirmation(
                    ConfirmationRecordView {
                        candidate_build_failure: Some(failure),
                        ..confirmation
                    },
                    "confirmation_candidate_build_failed"@,
                ),
            ),
        ),
        Transition::ConfirmationMatched(parity) => with_confirmation(
            run,
            ConfirmationRecordView { compiler_parity: Some(parity), ..confirmation },
        ),
        Transition::ConfirmationMismatched(build, parity) => without_improvement(
            with_confirmation(
                run,
                rejected_confirmation(
                    ConfirmationRecordView {
                        candidate_build: Some(build),
                        compiler_parity: Some(parity),
                        ..confirmation
                    },
                    "confirmation_compiler_parity_mismatch"@,
                ),
            ),
        ),
        Transition::ConfirmationWorkloadRejected(failure) => without_improvement(
            with_confirmation(
                run,
                rejected_confirmation(
                    ConfirmationRecordView { workload_failure: Some(failure), ..confirmation },
                    "confirmation_"@ + rejection_text(failure.kind),
                ),
            ),
        ),
        Transition::ConfirmationWorkloadFailed(failure) => failed(
            with_confirmation(
                run,
                rejected_confirmation(
                    ConfirmationRecordView { workload_failure: Some(failure), ..confirmation },
                    "confirmation_failed"@,
                ),
            ),
            workload_failure_in("confirmation"@, failure),
        ),
        Transition::ConfirmationChanged(message) => failed(
            with_confirmation(
                run,
                rejected_confirmation(confirmation, "confirmation_artifact_changed"@),
            ),
            bare_failure("confirmation_integrity"@, None, message),
        ),
        Transition::ConfirmationMeasured(measurement) => {
            let measured = with_confirmation(
                run,
                measured_confirmation(confirmation, measurement),
            );
            if measurement.outcome == MeasurementOutcome::Accepted {
                transitioned(measured, CompletedPhase::Confirmation, RunStatus::Promotion)
            } else {
                without_improvement(measured)
            }
        },
        _ => run,
    }
}

/// Whether a transition concerns the confirmation.
pub open spec fn concerns_confirmation(transition: Transition) -> bool {
    match transition {
        Transition::NoCandidate => true,
        Transition::ConfirmationBaseline(_) => true,
        Transition::ConfirmationBaselineFailed(_) => true,
        Transition::ConfirmationCandidate(_) => true,
        Transition::ConfirmationCandidateRejected(_) => true,
        Transition::ConfirmationMatched(_) => true,
        Transition::ConfirmationMismatched(_, _) => true,
        Transition::ConfirmationWorkloadRejected(_) => true,
        Transition::ConfirmationWorkloadFailed(_) => true,
        Transition::ConfirmationChanged(_) => true,
        Transition::ConfirmationMeasured(_) => true,
        _ => false,
    }
}

/// A run with a changed strategy record, or why there is none.
pub open spec fn strategy_transition(
    run: ManifestView,
    strategy: Strategy,
    transition: Transition,
) -> Result<ManifestView, Seq<char>> {
    match strategy_place(run.strategies, strategy, 0) {
        None => Err(no_record_message(strategy)),
        Some(place) => {
            let record = run.strategies[place];
            let changed = match transition {
                Transition::StrategyScreened(_, measurement) => if measurement.outcome
                    == MeasurementOutcome::UnstableMeasurement {
                    StrategyView {
                        screening: Some(measurement),
                        rejection_reason: Some("unstable_measurement"@),
                        ..record
                    }
                } else {
                    StrategyView { screening: Some(measurement), ..record }
                },
                Transition::StrategyRejected(_, failure) => StrategyView {
                    rejection_reason: Some(rejection_text(failure.kind)),
                    workload_failure: Some(failure),
                    ..record
                },
                _ => record,
            };
            Ok(ManifestView { strategies: run.strategies.update(place, changed), ..run })
        },
    }
}

/// A run after something happened to it, or why it cannot happen.
pub open spec fn after(run: ManifestView, transition: Transition) -> Result<
    ManifestView,
    Seq<char>,
> {
    if concerns_confirmation(transition) {
        match confirmation_of(run) {
            Err(message) => Err(message),
            Ok(confirmation) => Ok(confirmation_transition(run, confirmation, transition)),
        }
    } else {
        match transition {
            Transition::BaselineBuilt(build) => Ok(
                transitioned(
                    ManifestView { baseline: Some(build), ..run },
                    CompletedPhase::BaselineBuild,
                    RunStatus::StaticBuilds,
                ),
            ),
            Transition::BaselineFailed(failure) => Ok(
                failed(
                    run,
                    FailureView {
                        phase: "baseline_build"@,
                        outcome: None,
                        message: failure.message@,
                        bounded_diagnostics: failure.bounded_diagnostics@,
                        diagnostics_truncated: failure.diagnostics_truncated,
                        build_failure: Some(failure),
                    },
                ),
            ),
            Transition::StaticBuilt(build) => Ok(
                with_strategy(
                    run,
                    StrategyView {
                        build: Some(build),
                        ..bare_strategy(build.invocation.strategy)
                    },
                ),
            ),
            Transition::StaticRejected(failure) => Ok(
                with_strategy(
                    run,
                    StrategyView {
                        build_failure: Some(failure),
                        rejection_reason: Some("static_build_failed"@),
                        ..bare_strategy(failure.invocation.strategy)
                    },
                ),
            ),
            Transition::ScreeningBegun => Ok(
                transitioned(run, CompletedPhase::StaticBuilds, RunStatus::Screening),
            ),
            Transition::BaselineScreened(measurement) => Ok(
                ManifestView { baseline_measurement: Some(measurement), ..run },
            ),
            Transition::StrategyScreened(strategy, _) => strategy_transition(
                run,
                strategy,
                transition,
            ),
            Transition::StrategyRejected(strategy, _) => strategy_transition(
                run,
                strategy,
                transition,
            ),
            Transition::ScreeningCompleted(strategy) => Ok(
                transitioned(
                    ManifestView { pgo_base_strategy: Some(strategy), ..run },
                    CompletedPhase::Screening,
                    RunStatus::PgoTraining,
                ),
            ),
            Transition::PgoTrained(record) => Ok(
                transitioned(
                    ManifestView { pgo_training: Some(record), ..run },
                    CompletedPhase::PgoTraining,
                    RunStatus::PgoBuild,
                ),
            ),
            Transition::PgoTrainingFailed(record, failure) => Ok(
                failed(
                    ManifestView { pgo_training: Some(record), ..run },
                    workload_failure_in("pgo_training"@, failure),
                ),
            ),
            Transition::PgoMatched(parity) => Ok(ManifestView { pgo_parity: Some(parity), ..run }),
            Transition::PgoMismatched(build, parity) => Ok(
                with_strategy(
                    ManifestView { pgo_parity: Some(parity), ..run },
                    StrategyView {
                        build: Some(build),
                        rejection_reason: Some("pgo_compiler_parity_mismatch"@),
                        ..bare_strategy(Strategy::Pgo)
                    },
                ),
            ),
            Transition::PgoBuilt(build) => Ok(
                with_strategy(
                    run,
                    StrategyView { build: Some(build), ..bare_strategy(Strategy::Pgo) },
                ),
            ),
            Transition::PgoRejected(failure) => Ok(
                with_strategy(
                    run,
                    StrategyView {
                        build_failure: Some(failure),
                        rejection_reason: Some("pgo_build_failed"@),
                        ..bare_strategy(Strategy::Pgo)
                    },
                ),
            ),
            Transition::PgoSkipped => Ok(
                with_strategy(
                    run,
                    StrategyView {
                        rejection_reason: Some("pgo_training_rejected"@),
                        ..bare_strategy(Strategy::Pgo)
                    },
                ),
            ),
            Transition::PgoCompleted => Ok(
                transitioned(run, CompletedPhase::PgoBuild, RunStatus::CandidateSelection),
            ),
            Transition::CandidateSelected(candidate) => Ok(
                transitioned(
                    ManifestView {
                        selected_candidate: candidate,
                        confirmation: Some(pending_confirmation(candidate)),
                        ..run
                    },
                    CompletedPhase::CandidateSelection,
                    RunStatus::Confirmation,
                ),
            ),
            Transition::Promoted(promotion) => match accepted_candidate(run) {
                Err(message) => Err(message),
                Ok((strategy, build)) => if promotes(promotion, strategy, build) {
                    Ok(
                        ManifestView {
                            promotion: Some(promotion),
                            final_decision: FinalDecision::Confirmed,
                            status: RunStatus::Confirmed,
                            completed_phases: with_phase(
                                run.completed_phases,
                                CompletedPhase::Promotion,
                            ),
                            ..run
                        },
                    )
                } else {
                    Err("Promoted artifact identity did not match the accepted confirmation."@)
                },
            },
            Transition::PromotionFailed(message, interrupted) => Ok(
                failed(
                    run,
                    bare_failure(
                        "promotion"@,
                        if interrupted {
                            Some(WorkloadFailureKind::Interrupted)
                        } else {
                            None
                        },
                        message,
                    ),
                ),
            ),
            Transition::WorkloadFailed(phase, failure) => Ok(
                failed(run, workload_failure_in(phase, failure)),
            ),
            Transition::Interrupted(phase, message) => Ok(
                failed(
                    run,
                    bare_failure(phase, Some(WorkloadFailureKind::Interrupted), message),
                ),
            ),
            _ => Ok(run),
        }
    }
}

/// Whether `outcome` took a run from `before` to `now` through a transition.
pub open spec fn takes<T>(
    before: ManifestView,
    transition: Transition,
    now: ManifestView,
    outcome: Result<T, TemperError>,
) -> bool {
    match outcome {
        Ok(_) => after(before, transition) == Ok::<ManifestView, Seq<char>>(now),
        Err(error) => after(before, transition) == Err::<ManifestView, Seq<char>>(error@) && now
            == before,
    }
}

/// A copy of a workload failure.
pub fn copy_failure(failure: &WorkloadFailure) -> (copy: WorkloadFailure)
    ensures
        copy@ == failure@,
{
    WorkloadFailure {
        kind: failure.kind,
        message: failure.message.clone(),
        bounded_diagnostics: failure.bounded_diagnostics.clone(),
        diagnostics_truncated: failure.diagnostics_truncated,
    }
}

/// A message without anything in it.
fn nothing() -> (text: String)
    ensures
        text@ == Seq::<char>::empty(),
{
    let text = String::new();
    assert(text@ =~= Seq::<char>::empty());
    text
}

/// Whether a record says what a failed promotion makes of a run.
pub open spec fn is_emergency_record(record: EmergencyRecord, run: ManifestView) -> bool {
    after(run, Transition::PromotionFailed(EMERGENCY_MESSAGE@, false)) == Ok::<
        ManifestView,
        Seq<char>,
    >(
        (ManifestView {
            status: record.status,
            final_decision: record.final_decision,
            failure: Some(record.failure@),
            ..run
        }),
    )
}

/// A new run: its preflight is complete, and its baseline is to be built.
pub open spec fn new_run(head: RunHead) -> ManifestView {
    ManifestView {
        head,
        status: RunStatus::BaselineBuild,
        completed_phases: seq![CompletedPhase::Preflight],
        final_decision: FinalDecision::Pending,
        baseline: None,
        baseline_measurement: None,
        strategies: Seq::empty(),
        pgo_base_strategy: None,
        pgo_training: None,
        pgo_parity: None,
        selected_candidate: None,
        confirmation: None,
        promotion: None,
        failure: None,
    }
}

fn find_strategy(strategies: &Vec<StrategyRecord>, wanted: Strategy) -> (place: Option<usize>)
    ensures
        match place {
            Some(found) => strategy_place(strategy_views(strategies@), wanted, 0) == Some(
                found as int,
            ) && found < strategies@.len(),
            None => strategy_place(strategy_views(strategies@), wanted, 0) is None,
        },
{
    let ghost views = strategy_views(strategies@);
    let mut index: usize = 0;
    while index < strategies.len()
        invariant
            index <= strategies@.len(),
            views == strategy_views(strategies@),
            strategy_place(views, wanted, 0) == strategy_place(views, wanted, index as int),
        decreases strategies@.len() - index,
    {
        assert(views[index as int] == strategies@[index as int]@);
        if strategies[index].identity == wanted {
            return Some(index);
        }
        index = index + 1;
    }
    None
}

fn holds_phase(phases: &Vec<CompletedPhase>, wanted: CompletedPhase) -> (found: bool)
    ensures
        found == phases@.contains(wanted),
{
    let mut index: usize = 0;
    while index < phases.len()
        invariant
            index <= phases@.len(),
            forall|i: int| 0 <= i < index ==> phases@[i] != wanted,
        decreases phases@.len() - index,
    {
        if phases[index] == wanted {
            return true;
        }
        index = index + 1;
    }
    false
}

impl RunManifest {
    pub fn new(head: RunHead) -> (run: RunManifest)
        ensures
            run@ == new_run(head),
    {
        let mut completed_phases: Vec<CompletedPhase> = Vec::new();
        completed_phases.push(CompletedPhase::Preflight);
        let run = RunManifest {
            head,
            status: RunStatus::BaselineBuild,
            completed_phases,
            final_decision: FinalDecision::Pending,
            baseline: None,
            baseline_measurement: None,
            strategies: Vec::new(),
            pgo_base_strategy: None,
            pgo_training: None,
            pgo_parity: None,
            selected_candidate: None,
            confirmation: None,
            promotion: None,
            failure: None,
        };
        assert(run@ =~= new_run(head));
        run
    }

    fn push_completed(&mut self, completed: CompletedPhase)
        ensures
            final(self)@ == (ManifestView {
                completed_phases: with_phase(old(self)@.completed_phases, completed),
                ..old(self)@
            }),
    {
        if !holds_phase(&self.completed_phases, completed) {
            self.completed_phases.push(completed);
        }
    }

    fn transition(&mut self, completed: CompletedPhase, next: RunStatus)
        ensures
            final(self)@ == transitioned(old(self)@, completed, next),
    {
        self.push_completed(completed);
        self.status = next;
    }

    fn fail(&mut self, failure: FailureRecord)
        ensures
            final(self)@ == failed(old(self)@, failure@),
    {
        let interrupted: bool = match failure.outcome {
            Some(kind) => kind == WorkloadFailureKind::Interrupted,
            None => false,
        };
        if interrupted {
            self.status = RunStatus::Interrupted;
            self.final_decision = FinalDecision::Interrupted;
        } else {
            self.status = RunStatus::Failed;
            self.final_decision = FinalDecision::Failed;
        }
        self.failure = Some(failure);
    }

    fn push_strategy(&mut self, record: StrategyRecord)
        ensures
            final(self)@ == with_strategy(old(self)@, record@),
    {
        self.strategies.push(record);
        assert(self@.strategies =~= old(self)@.strategies.push(record@));
    }

    fn finish_no_improvement(&mut self)
        ensures
            final(self)@ == without_improvement(old(self)@),
    {
        if let Some(selected) = self.selected_candidate {
            if let Some(place) = find_strategy(&self.strategies, selected) {
                let ghost before = self.strategies@;
                let mut record = self.strategies.remove(place);
                record.rejection_reason = Some("confirmation_rejected".to_owned());
                self.strategies.insert(place, record);
                assert(before[place as int]@ == strategy_views(before)[place as int]);
                assert(strategy_views(self.strategies@) =~= strategy_views(before).update(
                    place as int,
                    record@,
                ));
            }
        }
        self.push_completed(CompletedPhase::Confirmation);
        self.status = RunStatus::NoImprovement;
        self.final_decision = FinalDecision::NoImprovement;
        assert(self@ =~= without_improvement(old(self)@));
    }

    pub fn complete_baseline(&mut self, baseline: BuildRecord)
        ensures
            after(old(self)@, Transition::BaselineBuilt(baseline)) == Ok::<
                ManifestView,
                Seq<char>,
            >(final(self)@),
    {
        self.baseline = Some(baseline);
        self.transition(CompletedPhase::BaselineBuild, RunStatus::StaticBuilds);
    }

    pub fn fail_baseline(&mut self, failure: BuildFailure)
        ensures
            after(old(self)@, Transition::BaselineFailed(failure)) == Ok::<
                ManifestView,
                Seq<char>,
            >(final(self)@),
    {
        let record = FailureRecord {
            phase: "baseline_build",
            outcome: None,
            message: failure.message.clone(),
            bounded_diagnostics: failure.bounded_diagnostics.clone(),
            diagnostics_truncated: failure.diagnostics_truncated,
            build_failure: Some(failure),
        };
        self.fail(record);
    }

    pub fn record_static_build(&mut self, build: BuildRecord)
        ensures
            after(old(self)@, Transition::StaticBuilt(build)) == Ok::<ManifestView, Seq<char>>(
                final(self)@,
            ),
    {
        self.push_strategy(
            StrategyRecord {
                identity: build.invocation.strategy,
                build: Some(build),
                build_failure: None,
                screening: None,
                workload_failure: None,
                rejection_reason: None,
            },
        );
    }

    pub fn reject_static_build(&mut self, failure: BuildFailure)
        ensures
            after(old(self)@, Transition::StaticRejected(failure)) == Ok::<
                ManifestView,
                Seq<char>,
            >(final(self)@),
    {
        self.push_strategy(
            StrategyRecord {
                identity: failure.invocation.strategy,
                build: None,
                build_failure: Some(failure),
                screening: None,
                workload_failure: None,
                rejection_reason: Some("static_build_failed".to_owned()),
            },
        );
    }

    pub fn begin_screening(&mut self)
        ensures
            after(old(self)@, Transition::ScreeningBegun) == Ok::<ManifestView, Seq<char>>(
                final(self)@,
            ),
    {
        self.transition(CompletedPhase::StaticBuilds, RunStatus::Screening);
    }

    pub fn record_baseline_screening(&mut self, measurement: ScreeningResult)
        ensures
            after(old(self)@, Transition::BaselineScreened(measurement)) == Ok::<
                ManifestView,
                Seq<char>,
            >(final(self)@),
    {
        self.baseline_measurement = Some(measurement);
    }

    pub fn record_strategy_screening(&mut self, strategy: Strategy, measurement: ScreeningResult) -> (
    outcome: Result<(), TemperError>)
        ensures
            takes(
                old(self)@,
                Transition::StrategyScreened(strategy, measurement),
                final(self)@,
                outcome,
            ),
    {
        let place: usize = match find_strategy(&self.strategies, strategy) {
            Some(place) => place,
            None => return Err(no_strategy_record(strategy)),
        };
        let ghost before = self.strategies@;
        let mut record = self.strategies.remove(place);
        let rejected: bool = measurement.outcome == MeasurementOutcome::UnstableMeasurement;
        record.screening = Some(measurement);
        if rejected {
            record.rejection_reason = Some("unstable_measurement".to_owned());
        }
        self.strategies.insert(place, record);
        assert(before[place as int]@ == strategy_views(before)[place as int]);
        assert(self@.strategies =~= strategy_views(before).update(place as int, record@));
        Ok(())
    }

    pub fn reject_strategy_workload(&mut self, strategy: Strategy, failure: &WorkloadFailure) -> (
    outcome: Result<(), TemperError>)
        ensures
            takes(
                old(self)@,
                Transition::StrategyRejected(strategy, failure@),
                final(self)@,
                outcome,
            ),
    {
        let place: usize = match find_strategy(&self.strategies, strategy) {
            Some(place) => place,
            None => return Err(no_strategy_record(strategy)),
        };
        let ghost before = self.strategies@;
        let mut record = self.strategies.remove(place);
        record.rejection_reason = Some(workload_rejection_reason(failure.kind).to_owned());
        record.workload_failure = Some(copy_failure(failure));
        self.strategies.insert(place, record);
        assert(before[place as int]@ == strategy_views(before)[place as int]);
        assert(self@.strategies =~= strategy_views(before).update(place as int, record@));
        Ok(())
    }

    pub fn complete_screening(&mut self, pgo_base_strategy: Strategy)
        ensures
            after(old(self)@, Transition::ScreeningCompleted(pgo_base_strategy)) == Ok::<
                ManifestView,
                Seq<char>,
            >(final(self)@),
    {
        self.pgo_base_strategy = Some(pgo_base_strategy);
        self.transition(CompletedPhase::Screening, RunStatus::PgoTraining);
    }

    pub fn record_pgo_training(&mut self, record: PgoTrainingRecord)
        ensures
            after(old(self)@, Transition::PgoTrained(record)) == Ok::<ManifestView, Seq<char>>(
                final(self)@,
            ),
    {
        self.pgo_training = Some(record);
        self.transition(CompletedPhase::PgoTraining, RunStatus::PgoBuild);
    }

    pub fn fail_pgo_training(&mut self, record: PgoTrainingRecord, failure: &WorkloadFailure)
        ensures
            after(old(self)@, Transition::PgoTrainingFailed(record, failure@)) == Ok::<
                ManifestView,
                Seq<char>,
            >(final(self)@),
    {
        self.pgo_training = Some(record);
        self.fail_workload("pgo_training", failure);
    }

    pub fn record_pgo_parity(&mut self, parity: CompilerParityRecord)
        ensures
            after(old(self)@, Transition::PgoMatched(parity)) == Ok::<ManifestView, Seq<char>>(
                final(self)@,
            ),
    {
        self.pgo_parity = Some(parity);
    }

    pub fn reject_pgo_parity(&mut self, build: BuildRecord, parity: CompilerParityRecord)
        ensures
            after(old(self)@, Transition::PgoMismatched(build, parity)) == Ok::<
                ManifestView,
                Seq<char>,
            >(final(self)@),
    {
        self.pgo_parity = Some(parity);
        self.push_strategy(
            StrategyRecord {
                identity: Strategy::Pgo,
                build: Some(build),
                build_failure: None,
                screening: None,
                workload_failure: None,
                rejection_reason: Some("pgo_compiler_parity_mismatch".to_owned()),
            },
        );
    }

    pub fn record_pgo_build(&mut self, build: BuildRecord)
        ensures
            after(old(self)@, Transition::PgoBuilt(build)) == Ok::<ManifestView, Seq<char>>(
                final(self)@,
            ),
    {
        self.push_strategy(
            StrategyRecord {
                identity: Strategy::Pgo,
                build: Some(build),
                build_failure: None,
                screening: None,
                workload_failure: None,
                rejection_reason: None,
            },
        );
    }

    pub fn reject_pgo_build(&mut self, failure: BuildFailure)
        ensures
            after(old(self)@, Transition::PgoRejected(failure)) == Ok::<ManifestView, Seq<char>>(
                final(self)@,
            ),
    {
        self.push_strategy(
            StrategyRecord {
                identity: Strategy::Pgo,
                build: None,
                build_failure: Some(failure),
                screening: None,
                workload_failure: None,
                rejection_reason: Some("pgo_build_failed".to_owned()),
            },
        );
    }

    pub fn skip_pgo_build(&mut self)
        ensures
            after(old(self)@, Transition::PgoSkipped) == Ok::<ManifestView, Seq<char>>(
                final(self)@,
            ),
    {
        self.push_strategy(
            StrategyRecord {
                identity: Strategy::Pgo,
                build: None,
                build_failure: None,
                screening: None,
                workload_failure: None,
                rejection_reason: Some("pgo_training_rejected".to_owned()),
            },
        );
    }

    pub fn complete_pgo_build(&mut self)
        ensures
            after(old(self)@, Transition::PgoCompleted) == Ok::<ManifestView, Seq<char>>(
                final(self)@,
            ),
    {
        self.transition(CompletedPhase::PgoBuild, RunStatus::CandidateSelection);
    }

    pub fn select_candidate(&mut self, candidate: Option<Strategy>)
        ensures
            after(old(self)@, Transition::CandidateSelected(candidate)) == Ok::<
                ManifestView,
                Seq<char>,
            >(final(self)@),
    {
        self.selected_candidate = candidate;
        self.confirmation = Some(ConfirmationRecord::pending(candidate));
        self.transition(CompletedPhase::CandidateSelection, RunStatus::Confirmation);
    }

    pub fn complete_without_candidate(&mut self) -> (outcome: Result<(), TemperError>)
        ensures
            takes(old(self)@, Transition::NoCandidate, final(self)@, outcome),
    {
        match self.confirmation.take() {
            None => Err(no_confirmation()),
            Some(record) => {
                let mut confirmation = record;
                confirmation.outcome = ConfirmationOutcome::Rejected;
                confirmation.rejection_reason = Some("no_valid_candidate".to_owned());
                self.confirmation = Some(confirmation);
                self.finish_no_improvement();
                Ok(())
            },
        }
    }

    pub fn record_confirmation_baseline(&mut self, build: BuildRecord) -> (outcome: Result<
        (),
        TemperError,
    >)
        ensures
            takes(
                old(self)@,
                Transition::ConfirmationBaseline(build),
                final(self)@,
                outcome,
            ),
    {
        match self.confirmation.take() {
            None => Err(no_confirmation()),
            Some(record) => {
                let mut confirmation = record;
                confirmation.baseline_build = Some(build);
                self.confirmation = Some(confirmation);
                Ok(())
            },
        }
    }

    pub fn fail_confirmation_baseline(&mut self, failure: BuildFailure) -> (outcome: Result<
        (),
        TemperError,
    >)
        ensures
            takes(
                old(self)@,
                Transition::ConfirmationBaselineFailed(failure),
                final(self)@,
                outcome,
            ),
    {
        match self.confirmation.take() {
            None => Err(no_confirmation()),
            Some(record) => {
                let mut confirmation = record;
                let reported = FailureRecord {
                    phase: "confirmation_baseline_build",
                    outcome: None,
                    message: failure.message.clone(),
                    bounded_diagnostics: failure.bounded_diagnostics.clone(),
                    diagnostics_truncated: failure.diagnostics_truncated,
                    build_failure: None,
                };
                confirmation.baseline_build_failure = Some(failure);
                confirmation.outcome = ConfirmationOutcome::Rejected;
                confirmation.rejection_reason = Some(
                    "confirmation_baseline_build_failed".to_owned(),
                );
                self.confirmation = Some(confirmation);
                self.fail(reported);
                Ok(())
            },
        }
    }

    pub fn record_confirmation_candidate(&mut self, build: BuildRecord) -> (outcome: Result<
        (),
        TemperError,
    >)
        ensures
            takes(
                old(self)@,
                Transition::ConfirmationCandidate(build),
                final(self)@,
                outcome,
            ),
    {
        match self.confirmation.take() {
            None => Err(no_confirmation()),
            Some(record) => {
                let mut confirmation = record;
                confirmation.candidate_build = Some(build);
                self.confirmation = Some(confirmation);
                Ok(())
            },
        }
    }

    pub fn reject_confirmation_build(&mut self, failure: BuildFailure) -> (outcome: Result<
        (),
        TemperError,
    >)
        ensures
            takes(
                old(self)@,
                Transition::ConfirmationCandidateRejected(failure),
                final(self)@,
                outcome,
            ),
    {
        match self.confirmation.take() {
            None => Err(no_confirmation()),
            Some(record) => {
                let mut confirmation = record;
                confirmation.candidate_build_failure = Some(failure);
                confirmation.outcome = ConfirmationOutcome::Rejected;
                confirmation.rejection_reason = Some(
                    "confirmation_candidate_build_failed".to_owned(),
                );
                self.confirmation = Some(confirmation);
                self.finish_no_improvement();
                Ok(())
            },
        }
    }

    pub fn record_confirmation_parity(&mut self, parity: CompilerParityRecord) -> (outcome: Result<
        (),
        TemperError,
    >)
        ensures
            takes(
                old(self)@,
                Transition::ConfirmationMatched(parity),
                final(self)@,
                outcome,
            ),
    {
        match self.confirmation.take() {
            None => Err(no_confirmation()),
            Some(record) => {
                let mut confirmation = record;
                confirmation.compiler_parity = Some(parity);
                self.confirmation = Some(confirmation);
                Ok(())
            },
        }
    }

    pub fn reject_confirmation_parity(
        &mut self,
        build: BuildRecord,
        parity: CompilerParityRecord,
    ) -> (outcome: Result<(), TemperError>)
        ensures
            takes(
                old(self)@,
                Transition::ConfirmationMismatched(build, parity),
                final(self)@,
                outcome,
            ),
    {
        match self.confirmation.take() {
            None => Err(no_confirmation()),
            Some(record) => {
                let mut confirmation = record;
                confirmation.candidate_build = Some(build);
                confirmation.compiler_parity = Some(parity);
                confirmation.outcome = ConfirmationOutcome::Rejected;
                confirmation.rejection_reason = Some(
                    "confirmation_compiler_parity_mismatch".to_owned(),
                );
                self.confirmation = Some(confirmation);
                self.finish_no_improvement();
                Ok(())
            },
        }
    }

    pub fn reject_confirmation_workload(&mut self, failure: &WorkloadFailure) -> (outcome: Result<
        (),
        TemperError,
    >)
        ensures
            takes(
                old(self)@,
                Transition::ConfirmationWorkloadRejected(failure@),
                final(self)@,
                outcome,
            ),
    {
        match self.confirmation.take() {
            None => Err(no_confirmation()),
            Some(record) => {
                let mut confirmation = record;
                confirmation.outcome = ConfirmationOutcome::Rejected;
                confirmation.workload_failure = Some(copy_failure(failure));
                confirmation.rejection_reason = Some(
                    text2("confirmation_", workload_rejection_reason(failure.kind)),
                );
                self.confirmation = Some(confirmation);
                self.finish_no_improvement();
                Ok(())
            },
        }
    }

    pub fn fail_confirmation_workload(&mut self, failure: &WorkloadFailure) -> (outcome: Result<
        (),
        TemperError,
    >)
        ensures
            takes(
                old(self)@,
                Transition::ConfirmationWorkloadFailed(failure@),
                final(self)@,
                outcome,
            ),
    {
        match self.confirmation.take() {
            None => Err(no_confirmation()),
            Some(record) => {
                let mut confirmation = record;
                confirmation.outcome = ConfirmationOutcome::Rejected;
                confirmation.workload_failure = Some(copy_failure(failure));
                confirmation.rejection_reason = Some("confirmation_failed".to_owned());
                self.confirmation = Some(confirmation);
                self.fail_workload("confirmation", failure);
                Ok(())
            },
        }
    }

    pub fn fail_confirmation_integrity(&mut self, message: String) -> (outcome: Result<
        (),
        TemperError,
    >)
        ensures
            takes(
                old(self)@,
                Transition::ConfirmationChanged(message@),
                final(self)@,
                outcome,
            ),
    {
        match self.confirmation.take() {
            None => Err(no_confirmation()),
            Some(record) => {
                let mut confirmation = record;
                confirmation.outcome = ConfirmationOutcome::Rejected;
                confirmation.rejection_reason = Some("confirmation_artifact_changed".to_owned());
                self.confirmation = Some(confirmation);
                self.fail(
                    FailureRecord {
                        phase: "confirmation_integrity",
                        outcome: None,
                        message,
                        bounded_diagnostics: nothing(),
                        diagnostics_truncated: false,
                        build_failure: None,
                    },
                );
                Ok(())
            },
        }
    }

    /// Records a measured confirmation, and says whether it was accepted.
    pub fn record_confirmation(&mut self, measurement: ConfirmationResult) -> (outcome: Result<
        bool,
        TemperError,
    >)
        ensures
            takes(
                old(self)@,
                Transition::ConfirmationMeasured(measurement),
                final(self)@,
                outcome,
            ),
            outcome matches Ok(accepted) ==> accepted == (measurement.outcome
                == MeasurementOutcome::Accepted),
    {
        match self.confirmation.take() {
            None => Err(no_confirmation()),
            Some(record) => {
                let mut confirmation = record;
                let accepted: bool = measurement.outcome == MeasurementOutcome::Accepted;
                confirmation.outcome = if accepted {
                    ConfirmationOutcome::Accepted
                } else {
                    ConfirmationOutcome::Rejected
                };
                confirmation.rejection_reason = match measurement.outcome {
                    MeasurementOutcome::UnstableMeasurement => Some(
                        "unstable_measurement".to_owned(),
                    ),
                    MeasurementOutcome::InsufficientImprovement => Some(
                        "insufficient_improvement".to_owned(),
                    ),
                    MeasurementOutcome::Accepted => None,
                    MeasurementOutcome::Stable => Some(
                        "invalid_confirmation_outcome".to_owned(),
                    ),
                };
                confirmation.measurement = Some(measurement);
                self.confirmation = Some(confirmation);
                if accepted {
                    self.transition(CompletedPhase::Confirmation, RunStatus::Promotion);
                } else {
                    self.finish_no_improvement();
                }
                Ok(accepted)
            },
        }
    }

    /// The accepted candidate.
    pub fn confirmation_candidate(&self) -> (candidate: Result<(Strategy, &BuildRecord), TemperError>)
        ensures
            match candidate {
                Ok((strategy, build)) => accepted_candidate(self@) == Ok::<
                    (Strategy, BuildRecord),
                    Seq<char>,
                >((strategy, *build)),
                Err(error) => accepted_candidate(self@) == Err::<
                    (Strategy, BuildRecord),
                    Seq<char>,
                >(error@),
            },
    {
        let confirmation = match &self.confirmation {
            Some(confirmation) => confirmation,
            None => return Err(no_confirmation()),
        };
        if confirmation.outcome != ConfirmationOutcome::Accepted {
            return Err(
                TemperError::new("Only an accepted confirmation can enter promotion.".to_owned()),
            );
        }
        let strategy: Strategy = match confirmation.strategy {
            Some(strategy) => strategy,
            None => return Err(
                TemperError::new("Accepted confirmation has no candidate strategy.".to_owned()),
            ),
        };
        match &confirmation.candidate_build {
            Some(build) => Ok((strategy, build)),
            None => Err(
                TemperError::new(
                    "Accepted confirmation has no candidate build record.".to_owned(),
                ),
            ),
        }
    }

    /// Records the promotion of the accepted candidate.
    pub fn record_promotion(&mut self, promotion: PromotionRecord) -> (outcome: Result<
        (),
        TemperError,
    >)
        ensures
            takes(old(self)@, Transition::Promoted(promotion), final(self)@, outcome),
    {
        match self.confirmation_candidate() {
            Err(error) => return Err(error),
            Ok((strategy, build)) => {
                if promotion.source_strategy != strategy || !same_text(
                    promotion.source_sha256.as_str(),
                    build.sha256.as_str(),
                ) || !same_text(promotion.promoted_sha256.as_str(), build.sha256.as_str()) {
                    return Err(
                        TemperError::new(
                            "Promoted artifact identity did not match the accepted confirmation.".to_owned(),
                        ),
                    );
                }
            },
        }
        self.promotion = Some(promotion);
        self.final_decision = FinalDecision::Confirmed;
        self.status = RunStatus::Confirmed;
        self.push_completed(CompletedPhase::Promotion);
        Ok(())
    }

    pub fn fail_promotion(&mut self, message: String, interrupted: bool)
        ensures
            after(old(self)@, Transition::PromotionFailed(message@, interrupted)) == Ok::<
                ManifestView,
                Seq<char>,
            >(final(self)@),
    {
        let outcome = if interrupted {
            Some(WorkloadFailureKind::Interrupted)
        } else {
            None
        };
        self.fail(
            FailureRecord {
                phase: "promotion",
                outcome,
                message,
                bounded_diagnostics: nothing(),
                diagnostics_truncated: false,
                build_failure: None,
            },
        );
    }

    /// What the run comes to where its promotion fails and the failure cannot be recorded any
    /// more: it is written before the promotion starts.
    pub fn emergency_record(&self) -> (record: EmergencyRecord)
        ensures
            is_emergency_record(record, self@),
            record.status == RunStatus::Failed,
            record.final_decision == FinalDecision::Failed,
    {
        EmergencyRecord {
            status: RunStatus::Failed,
            final_decision: FinalDecision::Failed,
            failure: FailureRecord {
                phase: "promotion",
                outcome: None,
                message: EMERGENCY_MESSAGE.to_string(),
                bounded_diagnostics: nothing(),
                diagnostics_truncated: false,
                build_failure: None,
            },
        }
    }

    pub fn fail_workload(&mut self, phase: &'static str, failure: &WorkloadFailure)
        ensures
            after(old(self)@, Transition::WorkloadFailed(phase@, failure@)) == Ok::<
                ManifestView,
                Seq<char>,
            >(final(self)@),
    {
        self.fail(
            FailureRecord {
                phase,
                outcome: Some(failure.kind),
                message: failure.message.clone(),
                bounded_diagnostics: failure.bounded_diagnostics.clone(),
                diagnostics_truncated: failure.diagnostics_truncated,
                build_failure: None,
            },
        );
    }

    pub fn fail_interrupted(&mut self, phase: &'static str, message: String)
        ensures
            after(old(self)@, Transition::Interrupted(phase@, message@)) == Ok::<
                ManifestView,
                Seq<char>,
            >(final(self)@),
    {
        self.fail(
            FailureRecord {
                phase,
                outcome: Some(WorkloadFailureKind::Interrupted),
                message,
                bounded_diagnostics: nothing(),
                diagnostics_truncated: false,
                build_failure: None,
            },
        );
    }
}

fn no_confirmation() -> (error: TemperError)
    ensures
        error@ == "Confirmation record is unavailable."@,
{
    TemperError::new("Confirmation record is unavailable.".to_owned())
}

fn no_strategy_record(strategy: Strategy) -> (error: TemperError)
    ensures
        error@ == no_record_message(strategy),
{
    TemperError::new(
        text3("Strategy ", strategy.canonical_identity(), " has no persisted build record."),
    )
}

/// The decision that goes with a status.
pub open spec fn decision_of(status: RunStatus) -> FinalDecision {
    match status {
        RunStatus::Confirmed => FinalDecision::Confirmed,
        RunStatus::NoImprovement => FinalDecision::NoImprovement,
        RunStatus::Interrupted => FinalDecision::Interrupted,
        RunStatus::Failed => FinalDecision::Failed,
        _ => FinalDecision::Pending,
    }
}

/// Whether a run's decision goes with its status, no phase is listed twice, and a confirmed run
/// has the promotion of its accepted candidate.
pub open spec fn is_consistent(run: ManifestView) -> bool {
    &&& run.final_decision == decision_of(run.status)
    &&& run.completed_phases.no_duplicates()
    &&& run.status == RunStatus::Confirmed ==> {
        &&& run.promotion is Some
        &&& accepted_candidate(run) is Ok
        &&& promotes(
            run.promotion->0,
            accepted_candidate(run)->Ok_0.0,
            accepted_candidate(run)->Ok_0.1,
        )
    }
    &&& (run.status == RunStatus::Failed || run.status == RunStatus::Interrupted)
        ==> run.failure is Some
}

/// Whether a run is still going on.
pub open spec fn is_going_on(run: ManifestView) -> bool {
    run.final_decision == FinalDecision::Pending
}

proof fn lemma_phases_stay_unique(phases: Seq<CompletedPhase>, phase: CompletedPhase)
    requires
        phases.no_duplicates(),
    ensures
        with_phase(phases, phase).no_duplicates(),
{
    if !phases.contains(phase) {
        let longer = phases.push(phase);
        assert forall|i: int, j: int|
            0 <= i < longer.len() && 0 <= j < longer.len() && i != j implies longer[i]
            != longer[j] by {
            if i < phases.len() && j < phases.len() {
                assert(longer[i] == phases[i] && longer[j] == phases[j]);
            } else if i < phases.len() {
                assert(phases.contains(phases[i]));
            } else if j < phases.len() {
                assert(phases.contains(phases[j]));
            }
        }
    }
}

/// Everything that happens to a run that goes on keeps it consistent; a failure keeps it
/// consistent also after its confirmation.
pub proof fn law_runs_stay_consistent(run: ManifestView, transition: Transition)
    requires
        is_consistent(run),
        is_going_on(run) || transition is PromotionFailed,
        after(run, transition) is Ok,
    ensures
        is_consistent(after(run, transition)->Ok_0),
        after(run, transition)->Ok_0.head == run.head,
{
    lemma_phases_stay_unique(run.completed_phases, CompletedPhase::BaselineBuild);
    lemma_phases_stay_unique(run.completed_phases, CompletedPhase::StaticBuilds);
    lemma_phases_stay_unique(run.completed_phases, CompletedPhase::Screening);
    lemma_phases_stay_unique(run.completed_phases, CompletedPhase::PgoTraining);
    lemma_phases_stay_unique(run.completed_phases, CompletedPhase::PgoBuild);
    lemma_phases_stay_unique(run.completed_phases, CompletedPhase::CandidateSelection);
    lemma_phases_stay_unique(run.completed_phases, CompletedPhase::Confirmation);
    lemma_phases_stay_unique(run.completed_phases, CompletedPhase::Promotion);
}

/// A run is only ever confirmed by the promotion of a candidate whose confirmation was accepted,
/// with the checksum of its confirmed build.
pub proof fn law_only_accepted_candidates_are_confirmed(run: ManifestView, transition: Transition)
    requires
        is_going_on(run),
        is_consistent(run),
        after(run, transition) is Ok,
        after(run, transition)->Ok_0.final_decision == FinalDecision::Confirmed,
    ensures
        transition is Promoted,
        run.confirmation is Some,
        run.confirmation->0.outcome == ConfirmationOutcome::Accepted,
        run.confirmation->0.candidate_build is Some,
        transition->Promoted_0.promoted_sha256@
            == run.confirmation->0.candidate_build->0.sha256@,
        transition->Promoted_0.source_sha256@ == run.confirmation->0.candidate_build->0.sha256@,
{
}

/// A new run is consistent.
pub proof fn law_new_runs_are_consistent(head: RunHead)
    ensures
        is_consistent(new_run(head)),
        is_going_on(new_run(head)),
{
}

/// The builds of a confirmation.
#[derive(Debug)]
pub struct ConfirmationPlans {
    pub baseline: BuildPlan,
    pub candidate: BuildPlan,
}

/// The build of the selected candidate, or why there is none; nothing where no candidate was
/// selected.
pub open spec fn selected_build(run: ManifestView) -> Result<
    Option<(Strategy, BuildRecord)>,
    Seq<char>,
> {
    match run.selected_candidate {
        None => Ok(None),
        Some(candidate) => {
            let place = strategy_place(run.strategies, candidate, 0);
            if place is None || run.strategies[place->0].build is None {
                Err(
                    "Selected candidate "@ + identity_label(candidate)
                        + " has no successful frozen build configuration."@,
                )
            } else {
                Ok(Some((candidate, run.strategies[place->0].build->0)))
            }
        },
    }
}

/// The interposition that the confirmation of the selected candidate repeats, and the profile that
/// it injects, or why they are not recorded; nothing where the candidate is not a PGO build.
pub open spec fn confirmation_interposition_of(run: ManifestView) -> Result<
    Option<(InterpositionRecord, Seq<u8>)>,
    Seq<char>,
> {
    match selected_build(run) {
        Err(message) => Err(message),
        Ok(Some((Strategy::Pgo, build))) => match build.invocation.interposition {
            None => Err("The selected PGO build has no recorded interposition."@),
            Some(recorded) => match recorded.profile_path {
                None => Err("The selected PGO build has no recorded profile."@),
                Some(profile) => Ok(Some((recorded, profile@))),
            },
        },
        Ok(_) => Ok(None),
    }
}

/// Whether a plan rebuilds a strategy for its confirmation.
pub open spec fn is_confirmation_plan(
    plan: BuildPlan,
    strategy: Strategy,
    target_root: Seq<u8>,
    overrides: Seq<Seq<char>>,
    interposition: Option<InterpositionPlan>,
) -> bool {
    &&& plan.strategy == strategy
    &&& plan.stage == BuildStage::Confirmation
    &&& plan.target_directory@ == match interposition {
        Some(interposed) => interposed.target_directory@,
        None => confirmation_directory(target_root, strategy),
    }
    &&& texts(plan.cargo_config_overrides@) == overrides
    &&& plan.interposition == interposition
}

/// Whether a plan rebuilds the selected candidate for its confirmation.
pub open spec fn plans_selected(
    plan: BuildPlan,
    selected: (Strategy, BuildRecord),
    target_root: Seq<u8>,
    interposition: Option<InterpositionPlan>,
) -> bool {
    is_confirmation_plan(
        plan,
        selected.0,
        target_root,
        texts(selected.1.invocation.cargo_config_overrides@),
        interposition,
    )
}

impl RunManifest {
    /// The build of the selected candidate, whose configuration the confirmation reuses.
    pub fn selected_candidate_build(&self) -> (selected: Result<
        Option<(Strategy, &BuildRecord)>,
        TemperError,
    >)
        ensures
            match selected {
                Ok(None) => selected_build(self@) == Ok::<
                    Option<(Strategy, BuildRecord)>,
                    Seq<char>,
                >(None),
                Ok(Some((strategy, build))) => selected_build(self@) == Ok::<
                    Option<(Strategy, BuildRecord)>,
                    Seq<char>,
                >(Some((strategy, *build))),
                Err(error) => selected_build(self@) == Err::<
                    Option<(Strategy, BuildRecord)>,
                    Seq<char>,
                >(error@),
            },
    {
        let candidate: Strategy = match self.selected_candidate {
            Some(candidate) => candidate,
            None => return Ok(None),
        };
        if let Some(place) = find_strategy(&self.strategies, candidate) {
            assert(strategy_views(self.strategies@)[place as int] == self.strategies@[place as int]@);
            if let Some(build) = &self.strategies[place].build {
                return Ok(Some((candidate, build)));
            }
        }
        Err(
            TemperError::new(
                text3(
                    "Selected candidate ",
                    candidate.canonical_identity(),
                    " has no successful frozen build configuration.",
                ),
            ),
        )
    }

    /// The interposition that the confirmation repeats, with the profile that it injects: only a
    /// PGO build is interposed.
    pub fn confirmation_interposition(&self) -> (found: Result<
        Option<(&InterpositionRecord, Vec<u8>)>,
        TemperError,
    >)
        ensures
            match found {
                Ok(None) => confirmation_interposition_of(self@) == Ok::<
                    Option<(InterpositionRecord, Seq<u8>)>,
                    Seq<char>,
                >(None),
                Ok(Some((recorded, profile))) => confirmation_interposition_of(self@) == Ok::<
                    Option<(InterpositionRecord, Seq<u8>)>,
                    Seq<char>,
                >(Some((*recorded, profile@))),
                Err(error) => confirmation_interposition_of(self@) == Err::<
                    Option<(InterpositionRecord, Seq<u8>)>,
                    Seq<char>,
                >(error@),
            },
    {
        let build = match self.selected_candidate_build() {
            Err(error) => return Err(error),
            Ok(Some((Strategy::Pgo, build))) => build,
            Ok(_) => return Ok(None),
        };
        match &build.invocation.interposition {
            None => Err(
                TemperError::new(
                    "The selected PGO build has no recorded interposition.".to_string(),
                ),
            ),
            Some(recorded) => match &recorded.profile_path {
                None => Err(
                    TemperError::new("The selected PGO build has no recorded profile.".to_string()),
                ),
                Some(profile) => Ok(Some((recorded, profile.clone()))),
            },
        }
    }

    /// The builds of the confirmation, with the frozen configurations of the screened builds; a
    /// PGO candidate is rebuilt through its own interposed stage.
    pub fn confirmation_plans(
        &self,
        target_root: &[u8],
        interposition: Option<InterpositionPlan>,
    ) -> (plans: Result<Option<ConfirmationPlans>, TemperError>)
        ensures
            match plans {
                Ok(None) => selected_build(self@) == Ok::<
                    Option<(Strategy, BuildRecord)>,
                    Seq<char>,
                >(None),
                Ok(Some(found)) => {
                    &&& selected_build(self@) is Ok
                    &&& selected_build(self@)->Ok_0 is Some
                    &&& self@.baseline is Some
                    &&& is_confirmation_plan(
                        found.baseline,
                        Strategy::Baseline,
                        target_root@,
                        texts(self@.baseline->0.invocation.cargo_config_overrides@),
                        None,
                    )
                    &&& plans_selected(
                        found.candidate,
                        selected_build(self@)->Ok_0->Some_0,
                        target_root@,
                        interposition,
                    )
                },
                Err(error) => match selected_build(self@) {
                    Err(message) => error@ == message,
                    Ok(Some(_)) => self@.baseline is None && error@
                        == "Baseline build record is unavailable."@,
                    Ok(None) => false,
                },
            },
    {
        let (candidate, build) = match self.selected_candidate_build() {
            Ok(Some(selected)) => selected,
            Ok(None) => return Ok(None),
            Err(error) => return Err(error),
        };
        let baseline = match &self.baseline {
            Some(baseline) => baseline,
            None => return Err(
                TemperError::new("Baseline build record is unavailable.".to_owned()),
            ),
        };
        Ok(
            Some(
                ConfirmationPlans {
                    baseline: BuildPlan::confirmation(
                        Strategy::Baseline,
                        target_root,
                        copy_texts(&baseline.invocation.cargo_config_overrides),
                        None,
                    ),
                    candidate: BuildPlan::confirmation(
                        candidate,
                        target_root,
                        copy_texts(&build.invocation.cargo_config_overrides),
                        interposition,
                    ),
                },
            ),
        )
    }
}

/// Why the pointer to the latest run could not be published.
#[derive(Debug)]
pub struct LatestPublishError {
    pub message: String,
    pub committed: bool,
    pub interrupted: bool,
}

/// The pointer to the latest confirmed run.
#[derive(Debug)]
pub struct LatestRecord {
    pub schema_version: u8,
    pub run_id: String,
    pub decision: FinalDecision,
    pub run_json: Vec<u8>,
    pub artifact_path: Vec<u8>,
    pub artifact_sha256: String,
    pub source_strategy: Strategy,
}

/// Why a run may not become the latest.
pub open spec fn latest_refusal(run: ManifestView) -> Option<Seq<char>> {
    if run.status != RunStatus::Confirmed {
        Some("The latest pointer can only reference a confirmed run."@)
    } else if run.promotion is None {
        Some("Confirmed run has no promotion record."@)
    } else {
        None
    }
}

impl RunManifest {
    /// The pointer to this run, which must be confirmed.
    pub fn publish_latest(&self, directory: &[u8]) -> (latest: Result<
        LatestRecord,
        LatestPublishError,
    >)
        ensures
            match latest {
                Ok(record) => {
                    &&& latest_refusal(self@) is None
                    &&& record.schema_version == SCHEMA_VERSION
                    &&& record.run_id@ == self@.head.run_id@
                    &&& record.decision == FinalDecision::Confirmed
                    &&& record.run_json@ == join_path(directory@, encode_utf8("run.json"@))
                    &&& record.artifact_path@ == self@.promotion->0.promoted_path@
                    &&& record.artifact_sha256@ == self@.promotion->0.promoted_sha256@
                    &&& record.source_strategy == self@.promotion->0.source_strategy
                },
                Err(error) => {
                    &&& latest_refusal(self@) == Some(error.message@)
                    &&& !error.committed
                    &&& !error.interrupted
                },
            },
    {
        if self.status != RunStatus::Confirmed {
            return Err(
                LatestPublishError {
                    message: "The latest pointer can only reference a confirmed run.".to_owned(),
                    committed: false,
                    interrupted: false,
                },
            );
        }
        match &self.promotion {
            None => Err(
                LatestPublishError {
                    message: "Confirmed run has no promotion record.".to_owned(),
                    committed: false,
                    interrupted: false,
                },
            ),
            Some(promotion) => Ok(
                LatestRecord {
                    schema_version: SCHEMA_VERSION,
                    run_id: self.head.run_id.clone(),
                    decision: FinalDecision::Confirmed,
                    run_json: join(directory, "run.json".as_bytes()),
                    artifact_path: promotion.promoted_path.clone(),
                    artifact_sha256: promotion.promoted_sha256.clone(),
                    source_strategy: promotion.source_strategy,
                },
            ),
        }
    }
}

/// The texts of the fractional numbers of a report: percentages with two decimals, ratios with
/// six.
#[derive(Debug)]
pub struct ReportNumbers {
    pub baseline_dispersion: String,
    /// One for each strategy, in order.
    pub strategy_dispersions: Vec<String>,
    pub ratio: String,
    pub lower: String,
    pub upper: String,
    pub confirmation_baseline_dispersion: String,
    pub confirmation_candidate_dispersion: String,
}

/// The part of a line about a screening.
pub open spec fn screening_part(measurement: Option<ScreeningResult>, dispersion: Seq<char>) -> Seq<
    char,
> {
    match measurement {
        Some(found) => ", screening="@ + decimal_text(found.median_duration_ns as nat)
            + " ns, dispersion="@ + dispersion + "%"@,
        None => Seq::empty(),
    }
}

fn write_screening(measurement: &Option<ScreeningResult>, dispersion: &str) -> (part: String)
    ensures
        part@ == screening_part(*measurement, dispersion@),
{
    match measurement {
        Some(found) => text5(
            ", screening=",
            decimal(found.median_duration_ns).as_str(),
            " ns, dispersion=",
            dispersion,
            "%",
        ),
        None => nothing(),
    }
}

/// The line about a strategy.
pub open spec fn strategy_line(strategy: StrategyView, dispersion: Seq<char>) -> Seq<char> {
    let build = match strategy.build {
        Some(found) => "built="@ + decimal_text(found.build_duration_ms as nat) + " ms"@,
        None => "build=rejected"@,
    };
    let rejection = match strategy.rejection_reason {
        Some(reason) => ", rejection="@ + reason,
        None => Seq::empty(),
    };
    identity_label(strategy.identity) + ": "@ + build + screening_part(
        strategy.screening,
        dispersion,
    ) + rejection
}

fn write_strategy(strategy: &StrategyRecord, dispersion: &str) -> (line: String)
    ensures
        line@ == strategy_line(strategy@, dispersion@),
{
    let build = match &strategy.build {
        Some(found) => text3("built=", decimal_wide(found.build_duration_ms).as_str(), " ms"),
        None => "build=rejected".to_owned(),
    };
    let rejection = match &strategy.rejection_reason {
        Some(reason) => text2(", rejection=", reason.as_str()),
        None => nothing(),
    };
    let screening = write_screening(&strategy.screening, dispersion);
    text5(
        strategy.identity.canonical_identity(),
        ": ",
        build.as_str(),
        screening.as_str(),
        rejection.as_str(),
    )
}

/// The text at a place, or nothing.
pub open spec fn text_at(values: Seq<Seq<char>>, place: int) -> Seq<char> {
    if 0 <= place < values.len() {
        values[place]
    } else {
        Seq::empty()
    }
}

/// The lines about the first `count` strategies.
pub open spec fn strategy_lines(
    strategies: Seq<StrategyView>,
    dispersions: Seq<Seq<char>>,
    count: int,
) -> Seq<Seq<char>>
    decreases count,
{
    if count <= 0 {
        Seq::empty()
    } else {
        strategy_lines(strategies, dispersions, count - 1).push(
            strategy_line(strategies[count - 1], text_at(dispersions, count - 1)),
        )
    }
}

/// The lines before those about the strategies.
pub open spec fn first_lines(run: ManifestView, numbers: ReportNumbers) -> Seq<Seq<char>> {
    let title = seq!["Temper "@ + run.head.cli_version@ + " schema 2 (experimental)"@];
    match run.baseline {
        Some(baseline) => title.push(
            "baseline: built="@ + decimal_text(baseline.build_duration_ms as nat) + " ms"@
                + screening_part(run.baseline_measurement, numbers.baseline_dispersion@),
        ),
        None => title,
    }
}

/// The line about the confirmation, if there is one.
pub open spec fn confirmation_line(run: ManifestView, numbers: ReportNumbers) -> Option<Seq<char>> {
    match run.confirmation {
        None => None,
        Some(confirmation) => if confirmation.measurement is Some {
            Some(
                "confirmation: ratio="@ + numbers.ratio@ + ", ci95=["@ + numbers.lower@ + ", "@
                    + numbers.upper@ + "], dispersion=["@
                    + numbers.confirmation_baseline_dispersion@ + "%, "@
                    + numbers.confirmation_candidate_dispersion@ + "%]"@,
            )
        } else {
            match confirmation.rejection_reason {
                Some(reason) => Some("confirmation: rejection="@ + reason),
                None => None,
            }
        },
    }
}

/// The lines after those about the strategies.
pub open spec fn last_lines(run: ManifestView, numbers: ReportNumbers) -> Seq<Seq<char>> {
    let confirmation = match confirmation_line(run, numbers) {
        Some(line) => seq![line],
        None => Seq::empty(),
    };
    let decided = confirmation.push("decision: "@ + decision_text(run.final_decision));
    match run.promotion {
        Some(promotion) => decided.push(
            "artifact: "@ + lossy_text(promotion.promoted_path@) + " ("@
                + promotion.promoted_sha256@ + ")"@,
        ),
        None => decided,
    }
}

/// The report of a run for a terminal.
pub open spec fn report_lines(run: ManifestView, numbers: ReportNumbers) -> Seq<Seq<char>> {
    first_lines(run, numbers) + strategy_lines(
        run.strategies,
        texts(numbers.strategy_dispersions@),
        run.strategies.len() as int,
    ) + last_lines(run, numbers)
}

fn push_line(lines: &mut Vec<String>, line: String)
    ensures
        texts(final(lines)@) == texts(old(lines)@).push(line@),
{
    lines.push(line);
    assert(texts(lines@) =~= texts(old(lines)@).push(line@));
}

impl RunManifest {
    fn write_confirmation(&self, numbers: &ReportNumbers) -> (line: Option<String>)
        ensures
            optional_text(line) == confirmation_line(self@, *numbers),
    {
        let confirmation = match &self.confirmation {
            Some(confirmation) => confirmation,
            None => return None,
        };
        if confirmation.measurement.is_some() {
            let ratio = text5(
                "confirmation: ratio=",
                numbers.ratio.as_str(),
                ", ci95=[",
                numbers.lower.as_str(),
                ", ",
            );
            let upper = text4(
                ratio.as_str(),
                numbers.upper.as_str(),
                "], dispersion=[",
                numbers.confirmation_baseline_dispersion.as_str(),
            );
            return Some(
                text4(
                    upper.as_str(),
                    "%, ",
                    numbers.confirmation_candidate_dispersion.as_str(),
                    "%]",
                ),
            );
        }
        match &confirmation.rejection_reason {
            Some(reason) => Some(text2("confirmation: rejection=", reason.as_str())),
            None => None,
        }
    }

    /// The report of a run for a terminal.
    pub fn human_report_lines(&self, numbers: &ReportNumbers) -> (lines: Vec<String>)
        ensures
            texts(lines@) == report_lines(self@, *numbers),
    {
        let mut lines: Vec<String> = Vec::new();
        assert(texts(lines@) =~= Seq::<Seq<char>>::empty());
        push_line(
            &mut lines,
            text3("Temper ", self.head.cli_version.as_str(), " schema 2 (experimental)"),
        );
        if let Some(baseline) = &self.baseline {
            let screening = write_screening(
                &self.baseline_measurement,
                numbers.baseline_dispersion.as_str(),
            );
            push_line(
                &mut lines,
                text4(
                    "baseline: built=",
                    decimal_wide(baseline.build_duration_ms).as_str(),
                    " ms",
                    screening.as_str(),
                ),
            );
        }
        let ghost head = texts(lines@);
        assert(head =~= first_lines(self@, *numbers));
        let ghost dispersions = texts(numbers.strategy_dispersions@);
        let mut index: usize = 0;
        assert(texts(lines@) =~= head + strategy_lines(self@.strategies, dispersions, 0));
        while index < self.strategies.len()
            invariant
                index <= self.strategies@.len(),
                dispersions == texts(numbers.strategy_dispersions@),
                texts(lines@) == head + strategy_lines(
                    self@.strategies,
                    dispersions,
                    index as int,
                ),
            decreases self.strategies@.len() - index,
        {
            let dispersion = if index < numbers.strategy_dispersions.len() {
                assert(dispersions[index as int]
                    == numbers.strategy_dispersions@[index as int]@);
                numbers.strategy_dispersions[index].clone()
            } else {
                nothing()
            };
            assert(self@.strategies[index as int] == self.strategies@[index as int]@);
            push_line(&mut lines, write_strategy(&self.strategies[index], dispersion.as_str()));
            assert(texts(lines@) =~= head + strategy_lines(
                self@.strategies,
                dispersions,
                index + 1,
            ));
            index = index + 1;
        }
        let ghost body = texts(lines@);
        if let Some(line) = self.write_confirmation(numbers) {
            push_line(&mut lines, line);
        }
        push_line(&mut lines, text2("decision: ", decision_label(self.final_decision)));
        if let Some(promotion) = &self.promotion {
            push_line(
                &mut lines,
                text5(
                    "artifact: ",
                    lossy(promotion.promoted_path.as_slice()).as_str(),
                    " (",
                    promotion.promoted_sha256.as_str(),
                    ")",
                ),
            );
        }
        assert(texts(lines@) =~= body + last_lines(self@, *numbers));
        lines
    }

    /// The report of a run for a terminal, which must not be too long.
    pub fn human_report(&self, numbers: &ReportNumbers) -> (report: Result<
        Vec<String>,
        TemperError,
    >)
        ensures
            match report {
                Ok(lines) => texts(lines@) == report_lines(self@, *numbers) && report_lines(
                    self@,
                    *numbers,
                ).len() <= HUMAN_REPORT_LINE_LIMIT,
                Err(error) => report_lines(self@, *numbers).len() > HUMAN_REPORT_LINE_LIMIT
                    && error@ == "Human report exceeded the 25-line success limit."@,
            },
    {
        let lines = self.human_report_lines(numbers);
        assert(texts(lines@).len() == lines@.len());
        if lines.len() > HUMAN_REPORT_LINE_LIMIT {
            return Err(
                TemperError::new("Human report exceeded the 25-line success limit.".to_owned()),
            );
        }
        Ok(lines)
    }
}

/// The report of a run with up to twenty strategies always fits its limit.
pub proof fn law_reports_are_short(run: ManifestView, numbers: ReportNumbers)
    requires
        run.strategies.len() <= 20,
    ensures
        report_lines(run, numbers).len() <= HUMAN_REPORT_LINE_LIMIT,
{
    lemma_strategy_lines_len(
        run.strategies,
        texts(numbers.strategy_dispersions@),
        run.strategies.len() as int,
    );
}

proof fn lemma_strategy_lines_len(
    strategies: Seq<StrategyView>,
    dispersions: Seq<Seq<char>>,
    count: int,
)
    requires
        0 <= count,
    ensures
        strategy_lines(strategies, dispersions, count).len() == count,
    decreases count,
{
    if count > 0 {
        lemma_strategy_lines_len(strategies, dispersions, count - 1);
    }
}

/// What the file system says of a directory that a run needs.
#[derive(Debug)]
pub enum DirectoryState {
    Symlink,
    NotDirectory,
    Directory,
    /// It was absent, and was created or not.
    Created(Result<(), String>),
    Unknown(String),
}

/// Why a directory cannot be used.
pub open spec fn directory_refusal(path: Seq<u8>, state: DirectoryState) -> Option<Seq<char>> {
    match state {
        DirectoryState::Symlink => Some(
            "Run path "@ + lossy_text(path) + " must not be a symbolic link."@,
        ),
        DirectoryState::NotDirectory => Some(
            "Run path "@ + lossy_text(path) + " exists but is not a directory."@,
        ),
        DirectoryState::Directory => None,
        DirectoryState::Created(Ok(_)) => None,
        DirectoryState::Created(Err(error)) => Some(
            "Could not create run directory "@ + lossy_text(path) + ": "@ + error@,
        ),
        DirectoryState::Unknown(error) => Some(
            "Could not inspect run directory "@ + lossy_text(path) + ": "@ + error@,
        ),
    }
}

/// Decides whether a directory can be used.
pub fn ensure_directory(path: &[u8], state: &DirectoryState) -> (usable: Result<(), TemperError>)
    ensures
        match usable {
            Ok(_) => directory_refusal(path@, *state) is None,
            Err(error) => directory_refusal(path@, *state) == Some(error@),
        },
{
    let shown = lossy(path);
    match state {
        DirectoryState::Symlink => Err(
            TemperError::new(
                text3("Run path ", shown.as_str(), " must not be a symbolic link."),
            ),
        ),
        DirectoryState::NotDirectory => Err(
            TemperError::new(
                text3("Run path ", shown.as_str(), " exists but is not a directory."),
            ),
        ),
        DirectoryState::Directory => Ok(()),
        DirectoryState::Created(Ok(_)) => Ok(()),
        DirectoryState::Created(Err(error)) => Err(
            TemperError::new(
                text4("Could not create run directory ", shown.as_str(), ": ", error.as_str()),
            ),
        ),
        DirectoryState::Unknown(error) => Err(
            TemperError::new(
                text4("Could not inspect run directory ", shown.as_str(), ": ", error.as_str()),
            ),
        ),
    }
}

/// The name of a run that starts at a time in a process.
pub fn run_id(seconds: u64, nanoseconds: u32, process: u32) -> (id: String)
    ensures
        id@ == decimal_text(seconds as nat) + "-"@ + decimal_text(nanoseconds as nat) + "-"@
            + decimal_text(process as nat),
{
    text5(
        decimal(seconds).as_str(),
        "-",
        decimal(nanoseconds as u64).as_str(),
        "-",
        decimal(process as u64).as_str(),
    )
}

/// Checks that the canonical directory of a run lies below the canonical workspace root.
pub fn check_run_directory(directory: &[u8], workspace_root: &[u8]) -> (checked: Result<
    (),
    TemperError,
>)
    ensures
        match checked {
            Ok(_) => lies_within(
                directory@,
                join_path(
                    join_path(workspace_root@, encode_utf8(".temper"@)),
                    encode_utf8("runs"@),
                ),
            ),
            Err(error) => !lies_within(
                directory@,
                join_path(
                    join_path(workspace_root@, encode_utf8(".temper"@)),
                    encode_utf8("runs"@),
                ),
            ) && error@
                == "Run directory escaped the canonical Cargo workspace .temper/runs directory."@,
        },
{
    let root = join(
        join(workspace_root, ".temper".as_bytes()).as_slice(),
        "runs".as_bytes(),
    );
    if starts_with(directory, root.as_slice()) {
        Ok(())
    } else {
        Err(
            TemperError::new(
                "Run directory escaped the canonical Cargo workspace .temper/runs directory.".to_owned(),
            ),
        )
    }
}

/// The record of a workload: its executable and its arguments, as they are shown.
pub fn request_record(
    minimum_improvement_percent: u64,
    timeout_seconds: u64,
    workload: &Vec<Vec<u8>>,
) -> (request: Result<RequestRecord, TemperError>)
    ensures
        match request {
            Ok(record) => {
                &&& workload@.len() > 0
                &&& record.minimum_improvement_percent == minimum_improvement_percent
                &&& record.timeout_seconds == timeout_seconds
                &&& record.workload_executable@ == lossy_text(workload@[0]@)
                &&& texts(record.workload_arguments@) == shown(byte_strings(workload@)).skip(1)
            },
            Err(error) => workload@.len() == 0 && error@
                == "The validated workload unexpectedly had no executable."@,
        },
{
    if workload.len() == 0 {
        return Err(
            TemperError::new(
                "The validated workload unexpectedly had no executable.".to_owned(),
            ),
        );
    }
    let mut words = show_words(workload);
    let ghost all = words@;
    assert(texts(all).len() == all.len());
    assert(texts(all)[0] == all[0]@);
    assert(byte_strings(workload@)[0] == workload@[0]@);
    let executable = words.remove(0);
    assert(texts(words@) =~= texts(all).skip(1));
    Ok(
        RequestRecord {
            minimum_improvement_percent,
            timeout_seconds,
            workload_executable: executable,
            workload_arguments: words,
        },
    )
}

proof fn lemma_strategy_place(strategies: Seq<StrategyView>, wanted: Strategy, from: int)
    requires
        0 <= from,
    ensures
        match strategy_place(strategies, wanted, from) {
            Some(place) => {
                &&& from <= place < strategies.len()
                &&& strategies[place].identity == wanted
                &&& forall|i: int|
                    from <= i < place ==> (#[trigger] strategies[i]).identity != wanted
            },
            None => forall|i: int|
                from <= i < strategies.len() ==> (#[trigger] strategies[i]).identity != wanted,
        },
    decreases strategies.len() - from,
{
    if from < strategies.len() && strategies[from].identity != wanted {
        lemma_strategy_place(strategies, wanted, from + 1);
    }
}

/// Whether a strategy is recorded at `place`, and nowhere before it.
pub open spec fn first_stands_at(
    strategies: Seq<StrategyView>,
    strategy: Strategy,
    place: int,
) -> bool {
    &&& 0 <= place < strategies.len()
    &&& strategies[place].identity == strategy
    &&& forall|i: int| 0 <= i < place ==> (#[trigger] strategies[i]).identity != strategy
}

/// A screening is recorded with the strategy that was screened, and with no other; an unstable one
/// rejects that strategy. What was recorded before of it is kept.
pub proof fn law_screenings_are_recorded_with_their_strategy(
    run: ManifestView,
    strategy: Strategy,
    measurement: ScreeningResult,
    place: int,
)
    requires
        first_stands_at(run.strategies, strategy, place),
    ensures
        after(run, Transition::StrategyScreened(strategy, measurement)) matches Ok(next) && {
            &&& next == (ManifestView { strategies: next.strategies, ..run })
            &&& next.strategies.len() == run.strategies.len()
            &&& forall|i: int|
                0 <= i < run.strategies.len() && i != place ==> #[trigger] next.strategies[i]
                    == run.strategies[i]
            &&& next.strategies[place].identity == strategy
            &&& next.strategies[place].build == run.strategies[place].build
            &&& next.strategies[place].screening == Some(measurement)
            &&& next.strategies[place].rejection_reason == if measurement.outcome
                == MeasurementOutcome::UnstableMeasurement {
                Some("unstable_measurement"@)
            } else {
                run.strategies[place].rejection_reason
            }
        },
{
    lemma_strategy_place(run.strategies, strategy, 0);
}

/// A workload that failed rejects the strategy that it ran, and no other, for what went wrong.
pub proof fn law_failed_workloads_reject_their_strategy(
    run: ManifestView,
    strategy: Strategy,
    failure: WorkloadFailureView,
    place: int,
)
    requires
        first_stands_at(run.strategies, strategy, place),
    ensures
        after(run, Transition::StrategyRejected(strategy, failure)) matches Ok(next) && {
            &&& next == (ManifestView { strategies: next.strategies, ..run })
            &&& next.strategies.len() == run.strategies.len()
            &&& forall|i: int|
                0 <= i < run.strategies.len() && i != place ==> #[trigger] next.strategies[i]
                    == run.strategies[i]
            &&& next.strategies[place] == (StrategyView {
                rejection_reason: Some(
                    if failure.kind == WorkloadFailureKind::Timeout {
                        "timeout"@
                    } else if failure.kind == WorkloadFailureKind::OutputLimit {
                        "output_limit"@
                    } else if failure.kind == WorkloadFailureKind::Interrupted {
                        "interrupted"@
                    } else {
                        "workload_failed"@
                    },
                ),
                workload_failure: Some(failure),
                ..run.strategies[place]
            })
        },
{
    lemma_strategy_place(run.strategies, strategy, 0);
}

/// Nothing is recorded of a strategy that was never built.
pub proof fn law_unbuilt_strategies_are_not_recorded(
    run: ManifestView,
    strategy: Strategy,
    measurement: ScreeningResult,
    failure: WorkloadFailureView,
)
    requires
        forall|i: int|
            0 <= i < run.strategies.len() ==> (#[trigger] run.strategies[i]).identity != strategy,
    ensures
        after(run, Transition::StrategyScreened(strategy, measurement)) is Err,
        after(run, Transition::StrategyRejected(strategy, failure)) is Err,
{
    lemma_strategy_place(run.strategies, strategy, 0);
}

/// A build is recorded once, under its own strategy, behind what was recorded before: with its
/// executable where it succeeded, and with its failure as a rejection where it did not.
pub proof fn law_builds_are_recorded_under_their_strategy(
    run: ManifestView,
    build: BuildRecord,
    failure: BuildFailure,
)
    ensures
        after(run, Transition::BaselineBuilt(build)) matches Ok(next) && next.baseline == Some(build)
            && next.strategies == run.strategies && next.status == RunStatus::StaticBuilds,
        after(run, Transition::StaticBuilt(build)) matches Ok(next) && {
            &&& next.strategies.drop_last() == run.strategies
            &&& next.strategies.last().identity == build.invocation.strategy
            &&& next.strategies.last().build == Some(build)
            &&& next.strategies.last().rejection_reason is None
        },
        after(run, Transition::StaticRejected(failure)) matches Ok(next) && {
            &&& next.strategies.drop_last() == run.strategies
            &&& next.strategies.last().identity == failure.invocation.strategy
            &&& next.strategies.last().build is None
            &&& next.strategies.last().build_failure == Some(failure)
            &&& next.strategies.last().rejection_reason == Some("static_build_failed"@)
        },
        after(run, Transition::PgoBuilt(build)) matches Ok(next) && {
            &&& next.strategies.drop_last() == run.strategies
            &&& next.strategies.last().identity == Strategy::Pgo
            &&& next.strategies.last().build == Some(build)
            &&& next.strategies.last().rejection_reason is None
        },
        after(run, Transition::PgoRejected(failure)) matches Ok(next) && {
            &&& next.strategies.drop_last() == run.strategies
            &&& next.strategies.last().identity == Strategy::Pgo
            &&& next.strategies.last().build is None
            &&& next.strategies.last().rejection_reason == Some("pgo_build_failed"@)
        },
        after(run, Transition::PgoSkipped) matches Ok(next) && {
            &&& next.strategies.drop_last() == run.strategies
            &&& next.strategies.last().identity == Strategy::Pgo
            &&& next.strategies.last().build is None
            &&& next.strategies.last().rejection_reason == Some("pgo_training_rejected"@)
        },
{
    assert(after(run, Transition::StaticBuilt(build))->Ok_0.strategies.drop_last()
        =~= run.strategies);
    assert(after(run, Transition::StaticRejected(failure))->Ok_0.strategies.drop_last()
        =~= run.strategies);
    assert(after(run, Transition::PgoBuilt(build))->Ok_0.strategies.drop_last()
        =~= run.strategies);
    assert(after(run, Transition::PgoRejected(failure))->Ok_0.strategies.drop_last()
        =~= run.strategies);
    assert(after(run, Transition::PgoSkipped)->Ok_0.strategies.drop_last() =~= run.strategies);
}

/// A measured confirmation is accepted exactly where its measurement is, and then awaits its
/// promotion. Otherwise the run ends without an improvement, and both the confirmation and the
/// selected strategy say why.
pub proof fn law_measurements_decide_the_confirmation(
    run: ManifestView,
    measurement: ConfirmationResult,
)
    requires
        run.confirmation is Some,
    ensures
        after(run, Transition::ConfirmationMeasured(measurement)) matches Ok(next) && {
            &&& next.confirmation is Some
            &&& next.confirmation->0.measurement == Some(measurement)
            &&& next.confirmation->0.strategy == run.confirmation->0.strategy
            &&& next.confirmation->0.candidate_build == run.confirmation->0.candidate_build
            &&& next.confirmation->0.outcome == ConfirmationOutcome::Accepted
                <==> measurement.outcome == MeasurementOutcome::Accepted
            &&& next.status == RunStatus::Promotion <==> measurement.outcome
                == MeasurementOutcome::Accepted
            &&& measurement.outcome == MeasurementOutcome::Accepted ==> {
                &&& next.final_decision == run.final_decision
                &&& next.strategies == run.strategies
                &&& next.confirmation->0.rejection_reason is None
            }
            &&& measurement.outcome != MeasurementOutcome::Accepted ==> {
                &&& next.status == RunStatus::NoImprovement
                &&& next.final_decision == FinalDecision::NoImprovement
                &&& next.confirmation->0.outcome == ConfirmationOutcome::Rejected
            }
            &&& measurement.outcome == MeasurementOutcome::UnstableMeasurement
                ==> next.confirmation->0.rejection_reason == Some("unstable_measurement"@)
            &&& measurement.outcome == MeasurementOutcome::InsufficientImprovement
                ==> next.confirmation->0.rejection_reason == Some("insufficient_improvement"@)
            &&& next.completed_phases.contains(CompletedPhase::Confirmation)
        },
{
    let phases = run.completed_phases;
    if !phases.contains(CompletedPhase::Confirmation) {
        let longer = phases.push(CompletedPhase::Confirmation);
        assert(longer[phases.len() as int] == CompletedPhase::Confirmation);
    }
}

/// A run that ends without an improvement rejects the strategy that was selected, and no other.
pub proof fn law_unconfirmed_strategies_are_rejected(
    run: ManifestView,
    measurement: ConfirmationResult,
    strategy: Strategy,
    place: int,
)
    requires
        run.confirmation is Some,
        measurement.outcome != MeasurementOutcome::Accepted,
        run.selected_candidate == Some(strategy),
        first_stands_at(run.strategies, strategy, place),
    ensures
        after(run, Transition::ConfirmationMeasured(measurement)) matches Ok(next) && {
            &&& next.strategies.len() == run.strategies.len()
            &&& forall|i: int|
                0 <= i < run.strategies.len() && i != place ==> #[trigger] next.strategies[i]
                    == run.strategies[i]
            &&& next.strategies[place] == (StrategyView {
                rejection_reason: Some("confirmation_rejected"@),
                ..run.strategies[place]
            })
        },
{
    lemma_strategy_place(run.strategies, strategy, 0);
}

/// A candidate that was selected is the one to be confirmed: the run awaits its confirmation.
pub proof fn law_selections_await_their_confirmation(run: ManifestView, candidate: Option<Strategy>)
    ensures
        after(run, Transition::CandidateSelected(candidate)) matches Ok(next) && {
            &&& next.selected_candidate == candidate
            &&& next.confirmation is Some
            &&& next.confirmation->0.strategy == candidate
            &&& next.confirmation->0.outcome == ConfirmationOutcome::Pending
            &&& next.confirmation->0.measurement is None
            &&& next.confirmation->0.candidate_build is None
            &&& next.status == RunStatus::Confirmation
            &&& next.strategies == run.strategies
        },
{
}

/// The accepted candidate is confirmed by a promotion that copied exactly its build, and only by
/// such a one.
pub proof fn law_accepted_candidates_can_be_promoted(
    run: ManifestView,
    promotion: PromotionRecord,
)
    requires
        run.confirmation is Some,
        run.confirmation->0.strategy is Some,
        run.confirmation->0.candidate_build is Some,
    ensures
        after(run, Transition::Promoted(promotion)) is Ok <==> {
            &&& run.confirmation->0.outcome == ConfirmationOutcome::Accepted
            &&& promotion.source_strategy == run.confirmation->0.strategy->0
            &&& promotion.source_sha256@ == run.confirmation->0.candidate_build->0.sha256@
            &&& promotion.promoted_sha256@ == run.confirmation->0.candidate_build->0.sha256@
        },
        after(run, Transition::Promoted(promotion)) matches Ok(next) ==> {
            &&& next.promotion == Some(promotion)
            &&& next.status == RunStatus::Confirmed
            &&& next.final_decision == FinalDecision::Confirmed
        },
{
}

/// Whether a transition is a failure of the whole run, with this message.
pub open spec fn is_run_failure(transition: Transition, message: Seq<char>) -> bool {
    match transition {
        Transition::BaselineFailed(failure) => failure.message@ == message,
        Transition::PgoTrainingFailed(_, failure) => failure.message == message,
        Transition::ConfirmationBaselineFailed(failure) => failure.message@ == message,
        Transition::ConfirmationWorkloadFailed(failure) => failure.message == message,
        Transition::ConfirmationChanged(said) => said == message,
        Transition::PromotionFailed(said, _) => said == message,
        Transition::WorkloadFailed(_, failure) => failure.message == message,
        Transition::Interrupted(_, said) => said == message,
        _ => false,
    }
}

/// Whether a transition is an interruption.
pub open spec fn is_interruption(transition: Transition) -> bool {
    match transition {
        Transition::PgoTrainingFailed(_, failure) => failure.kind
            == WorkloadFailureKind::Interrupted,
        Transition::ConfirmationWorkloadFailed(failure) => failure.kind
            == WorkloadFailureKind::Interrupted,
        Transition::PromotionFailed(_, interrupted) => interrupted,
        Transition::WorkloadFailed(_, failure) => failure.kind == WorkloadFailureKind::Interrupted,
        Transition::Interrupted(_, _) => true,
        _ => false,
    }
}

/// A failure ends the run with its message: as interrupted where it was an interruption, as failed
/// otherwise. What was built and measured before stays recorded.
pub proof fn law_failures_end_the_run(
    run: ManifestView,
    transition: Transition,
    message: Seq<char>,
)
    requires
        is_run_failure(transition, message),
        after(run, transition) is Ok,
    ensures
        ({
            let next = after(run, transition)->Ok_0;
            &&& next.failure is Some
            &&& next.failure->0.message == message
            &&& next.status == if is_interruption(transition) {
                RunStatus::Interrupted
            } else {
                RunStatus::Failed
            }
            &&& next.final_decision == if is_interruption(transition) {
                FinalDecision::Interrupted
            } else {
                FinalDecision::Failed
            }
            &&& next.strategies == run.strategies
            &&& next.baseline == run.baseline
            &&& next.promotion == run.promotion
        }),
{
}

/// A run goes through its phases in order: each completed phase is listed once it is over, behind
/// those before it, and the run then awaits the next.
pub proof fn law_phases_complete_in_order(
    run: ManifestView,
    build: BuildRecord,
    base: Strategy,
    record: PgoTrainingRecord,
    candidate: Option<Strategy>,
)
    ensures
        after(run, Transition::BaselineBuilt(build)) matches Ok(next) && moves_on(
            run,
            next,
            CompletedPhase::BaselineBuild,
            RunStatus::StaticBuilds,
        ),
        after(run, Transition::ScreeningBegun) matches Ok(next) && moves_on(
            run,
            next,
            CompletedPhase::StaticBuilds,
            RunStatus::Screening,
        ),
        after(run, Transition::ScreeningCompleted(base)) matches Ok(next) && moves_on(
            run,
            next,
            CompletedPhase::Screening,
            RunStatus::PgoTraining,
        ) && next.pgo_base_strategy == Some(base),
        after(run, Transition::PgoTrained(record)) matches Ok(next) && moves_on(
            run,
            next,
            CompletedPhase::PgoTraining,
            RunStatus::PgoBuild,
        ) && next.pgo_training == Some(record),
        after(run, Transition::PgoCompleted) matches Ok(next) && moves_on(
            run,
            next,
            CompletedPhase::PgoBuild,
            RunStatus::CandidateSelection,
        ),
        after(run, Transition::CandidateSelected(candidate)) matches Ok(next) && moves_on(
            run,
            next,
            CompletedPhase::CandidateSelection,
            RunStatus::Confirmation,
        ),
{
}

/// Whether a run completed a phase and awaits the next, with the phases before it as they were.
pub open spec fn moves_on(
    before: ManifestView,
    now: ManifestView,
    completed: CompletedPhase,
    status: RunStatus,
) -> bool {
    &&& now.status == status
    &&& now.final_decision == before.final_decision
    &&& now.completed_phases == if before.completed_phases.contains(completed) {
        before.completed_phases
    } else {
        before.completed_phases.push(completed)
    }
}

proof fn lemma_strategy_line_at(
    strategies: Seq<StrategyView>,
    dispersions: Seq<Seq<char>>,
    count: int,
    index: int,
)
    requires
        0 <= index < count,
    ensures
        strategy_lines(strategies, dispersions, count).len() == count,
        strategy_lines(strategies, dispersions, count)[index] == strategy_line(
            strategies[index],
            text_at(dispersions, index),
        ),
    decreases count,
{
    lemma_strategy_lines_len(strategies, dispersions, count);
    if index < count - 1 {
        lemma_strategy_line_at(strategies, dispersions, count - 1, index);
    } else {
        lemma_strategy_lines_len(strategies, dispersions, count - 1);
    }
}

/// Whether a line stands in a report.
pub open spec fn report_says(run: ManifestView, numbers: ReportNumbers, line: Seq<char>) -> bool {
    report_lines(run, numbers).contains(line)
}

proof fn lemma_report_holds(run: ManifestView, numbers: ReportNumbers, line: Seq<char>)
    requires
        first_lines(run, numbers).contains(line) || strategy_lines(
            run.strategies,
            texts(numbers.strategy_dispersions@),
            run.strategies.len() as int,
        ).contains(line) || last_lines(run, numbers).contains(line),
    ensures
        report_says(run, numbers, line),
{
    let first = first_lines(run, numbers);
    let middle = strategy_lines(
        run.strategies,
        texts(numbers.strategy_dispersions@),
        run.strategies.len() as int,
    );
    let last = last_lines(run, numbers);
    let whole = report_lines(run, numbers);
    if first.contains(line) {
        let i = choose|i: int| 0 <= i < first.len() && first[i] == line;
        assert(whole[i] == line);
    } else if middle.contains(line) {
        let i = choose|i: int| 0 <= i < middle.len() && middle[i] == line;
        assert(whole[first.len() + i] == line);
    } else {
        let i = choose|i: int| 0 <= i < last.len() && last[i] == line;
        assert(whole[first.len() + middle.len() + i] == line);
    }
}

/// A report says what the run came to: its decision and, once it was promoted, the artifact with
/// its checksum. It has a line for every strategy, which starts with its name and names why it was
/// rejected.
pub proof fn law_reports_say_what_the_run_came_to(
    run: ManifestView,
    numbers: ReportNumbers,
    index: int,
)
    requires
        0 <= index < run.strategies.len(),
    ensures
        report_says(
            run,
            numbers,
            "decision: "@ + if run.final_decision == FinalDecision::Confirmed {
                "confirmed"@
            } else if run.final_decision == FinalDecision::NoImprovement {
                "no_improvement"@
            } else if run.final_decision == FinalDecision::Interrupted {
                "interrupted"@
            } else if run.final_decision == FinalDecision::Failed {
                "failed"@
            } else {
                "pending"@
            },
        ),
        run.promotion is Some ==> report_says(
            run,
            numbers,
            "artifact: "@ + lossy_text(run.promotion->0.promoted_path@) + " ("@
                + run.promotion->0.promoted_sha256@ + ")"@,
        ),
        exists|line: Seq<char>|
            {
                &&& #[trigger] report_says(run, numbers, line)
                &&& (identity_label(run.strategies[index].identity) + ": "@).is_prefix_of(line)
                &&& run.strategies[index].rejection_reason matches Some(reason) ==> (
                ", rejection="@ + reason).is_suffix_of(line)
            },
{
    let decision = "decision: "@ + decision_text(run.final_decision);
    let confirmation = match confirmation_line(run, numbers) {
        Some(line) => seq![line],
        None => Seq::empty(),
    };
    let last = last_lines(run, numbers);
    assert(last[confirmation.len() as int] == decision);
    lemma_report_holds(run, numbers, decision);
    if run.promotion is Some {
        let artifact = "artifact: "@ + lossy_text(run.promotion->0.promoted_path@) + " ("@
            + run.promotion->0.promoted_sha256@ + ")"@;
        assert(last[confirmation.len() as int + 1] == artifact);
        lemma_report_holds(run, numbers, artifact);
    }
    let dispersions = texts(numbers.strategy_dispersions@);
    let count = run.strategies.len() as int;
    lemma_strategy_line_at(run.strategies, dispersions, count, index);
    let strategy = run.strategies[index];
    let line = strategy_line(strategy, text_at(dispersions, index));
    let lines = strategy_lines(run.strategies, dispersions, count);
    assert(lines[index] == line);
    lemma_report_holds(run, numbers, line);
    let front = identity_label(strategy.identity) + ": "@;
    assert(line.take(front.len() as int) =~= front);
    if let Some(reason) = strategy.rejection_reason {
        let end = ", rejection="@ + reason;
        assert(line.skip(line.len() - end.len()) =~= end);
        assert(end.is_suffix_of(line));
    }
    assert(report_says(run, numbers, line));
}

/// A confirmation is planned for the build that was selected: with the configuration that it was
/// screened with, and for no other strategy.
pub proof fn law_confirmations_reuse_the_selected_build(
    run: ManifestView,
    strategy: Strategy,
    place: int,
)
    requires
        run.selected_candidate == Some(strategy),
        first_stands_at(run.strategies, strategy, place),
    ensures
        selected_build(run) == match run.strategies[place].build {
            Some(build) => Ok::<Option<(Strategy, BuildRecord)>, Seq<char>>(
                Some((strategy, build)),
            ),
            None => Err::<Option<(Strategy, BuildRecord)>, Seq<char>>(
                "Selected candidate "@ + identity_label(strategy)
                    + " has no successful frozen build configuration."@,
            ),
        },
{
    lemma_strategy_place(run.strategies, strategy, 0);
}

} // verus!
