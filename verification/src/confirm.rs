//! The confirmation and the promotion of the selected candidate.
//!
//! Confirmation alternates outside work and decisions. It takes what the last piece of work came
//! to, records it in the run, and says what is to be done next. The run is persisted before the
//! next piece of work begins.

use vstd::prelude::*;
use vstd::string::*;

use crate::anchored::AnchoredError;
use crate::cargo::{BuildFailure, BuildRecord};
use crate::error::TemperError;
use crate::interposition::InterpositionPlan;
use crate::measurement::{ConfirmationResult, MeasurementOutcome};
use crate::parity::{
    confirmation_decision, decide_confirmation, optional_inputs, CompilerParityRecord, ParityView,
    StageInputs, StageView,
};
use crate::paths::join_path;
use crate::promotion::{PromotionError, PromotionErrorKind, PromotionRecord};
use crate::run::{
    accepted_candidate, after, is_confirmation_plan, plans_selected, selected_build,
    ConfirmationOutcome, LatestRecord, ManifestView, RunManifest, RunStatus, Transition,
};
use crate::search::{inputs_of_build, interruption_message, observed_inputs};
use crate::strategy::{BuildPlan, Strategy};
use crate::text::{same_text, text2, text3, texts};
use crate::workload::{ConfirmationFailure, ConfirmationStep, WorkloadFailureKind};

verus! {

/// Which piece of work a confirmation waits for.
#[derive(Clone, Copy, Debug, PartialEq, Eq, Structural)]
pub enum ConfirmStep {
    Planning,
    BaselineBuild,
    CandidateBuild,
    AnchoringBaseline,
    AnchoringCandidate,
    Measuring,
    Verifying,
    Reserving,
    /// No space could be reserved, and the prepared failure is being put in place.
    Activating,
    Promoting,
    Publishing,
    Releasing,
    ReleasingEmergency,
    /// The promotion cannot stand, and its artifact is being removed.
    Discarding,
    /// The promotion failed, and its reserve is being released.
    ReleasingFailed,
    PersistingFailure,
    /// The promotion stands but is not durable, and its reserve is being released.
    ReleasingCommitted,
    /// The prepared failure is being removed after a complaint.
    ReleasingComplaint,
    Interrupting,
    Over,
}

/// What a piece of work came to.
#[derive(Debug)]
pub enum ConfirmEvent {
    /// The interposed stage of a PGO candidate; none for another candidate.
    Planned(Result<Option<InterpositionPlan>, String>),
    /// A build, and whether the run was interrupted meanwhile.
    Built(Result<BuildRecord, BuildFailure>, bool),
    /// The check of an artifact.
    Checked(Result<(), PromotionError>),
    Measured(Result<ConfirmationResult, ConfirmationFailure>),
    Promoted(Result<PromotionRecord, PromotionError>),
    Published(Result<(), AnchoredError>),
    Did(Result<(), String>),
}

/// The next piece of work.
#[derive(Debug)]
pub enum ConfirmAction {
    Plan,
    Build(BuildPlan),
    /// Anchor the executable at this path, which must have this checksum.
    Anchor(Vec<u8>, String),
    Measure,
    /// Check that both anchored executables are unchanged.
    Verify,
    Reserve,
    ActivateEmergency,
    Promote(Strategy),
    /// Record the run, and then publish this pointer. A run that cannot be recorded is a
    /// publication that failed before its commit.
    Publish(LatestRecord),
    ReleaseReserve,
    ReleaseEmergency,
    Discard,
    /// Record the run.
    Persist,
    /// The run ended well, and is to be reported.
    Report,
    /// The run failed with this message, and is to be reported.
    Fail(String),
    /// The run cannot go on.
    Abort(TemperError),
}

/// Whether a changed run is to be recorded before an action, and the run cannot go on where that
/// fails. The actions that settle a promotion go on whatever became of its records.
pub open spec fn is_recorded_first(action: ConfirmAction) -> bool {
    match action {
        ConfirmAction::ActivateEmergency | ConfirmAction::Publish(_) => false,
        ConfirmAction::ReleaseReserve | ConfirmAction::ReleaseEmergency => false,
        ConfirmAction::Discard | ConfirmAction::Persist => false,
        _ => true,
    }
}

/// Whether a changed run is to be recorded before an action.
pub fn records_first(action: &ConfirmAction) -> (first: bool)
    ensures
        first == is_recorded_first(*action),
{
    match action {
        ConfirmAction::ActivateEmergency | ConfirmAction::Publish(_) => false,
        ConfirmAction::ReleaseReserve | ConfirmAction::ReleaseEmergency => false,
        ConfirmAction::Discard | ConfirmAction::Persist => false,
        _ => true,
    }
}

/// A confirmation in progress.
#[derive(Debug)]
pub struct Confirming {
    pub step: ConfirmStep,
    pub run: RunManifest,
    pub accepted_inputs: Option<StageInputs>,
    pub candidate_plan: Option<BuildPlan>,
    pub baseline_path: Vec<u8>,
    pub baseline_sha256: String,
    pub candidate_path: Vec<u8>,
    pub candidate_sha256: String,
    pub measurement: Option<ConfirmationResult>,
    pub message: String,
    pub interrupted: bool,
}

/// Whether an event is one that a confirmation waits for.
pub open spec fn is_awaited_by_confirmation(step: ConfirmStep, event: ConfirmEvent) -> bool {
    match step {
        ConfirmStep::Planning => event is Planned,
        ConfirmStep::BaselineBuild | ConfirmStep::CandidateBuild => event is Built,
        ConfirmStep::AnchoringBaseline | ConfirmStep::AnchoringCandidate => event is Checked,
        ConfirmStep::Verifying => event is Checked,
        ConfirmStep::Measuring => event is Measured,
        ConfirmStep::Promoting => event is Promoted,
        ConfirmStep::Publishing => event is Published,
        ConfirmStep::Over => false,
        _ => event is Did,
    }
}

/// Whether a confirmation ends with a report, and left this run.
pub open spec fn reports(run: ManifestView, now: Confirming, action: ConfirmAction) -> bool {
    now.step == ConfirmStep::Over && action is Report && now.run@ == run
}

/// Whether a confirmation fails with a message, and left this run.
pub open spec fn fails_with(
    message: Seq<char>,
    run: ManifestView,
    now: Confirming,
    action: ConfirmAction,
) -> bool {
    &&& now.step == ConfirmStep::Over
    &&& action matches ConfirmAction::Fail(found)
    &&& found@ == message
    &&& now.run@ == run
}

/// Whether a confirmation gives up with an error, and left this run.
pub open spec fn aborts_with(
    message: Seq<char>,
    run: ManifestView,
    now: Confirming,
    action: ConfirmAction,
) -> bool {
    &&& now.step == ConfirmStep::Over
    &&& action matches ConfirmAction::Abort(error)
    &&& error@ == message
    &&& now.run@ == run
}

/// Whether a confirmation was interrupted.
pub open spec fn is_interrupted(
    before: Confirming,
    now: Confirming,
    action: ConfirmAction,
) -> bool {
    &&& now.step == ConfirmStep::Interrupting
    &&& action is Persist
    &&& now.message@ == interruption_message("confirmation"@)
    &&& after(
        before.run@,
        Transition::Interrupted("confirmation"@, interruption_message("confirmation"@)),
    ) == Ok::<ManifestView, Seq<char>>(now.run@)
}

/// Whether what a confirmation rests on is unchanged.
pub open spec fn keeps_builds(before: Confirming, now: Confirming) -> bool {
    &&& now.baseline_path == before.baseline_path
    &&& now.baseline_sha256 == before.baseline_sha256
    &&& now.candidate_path == before.candidate_path
    &&& now.candidate_sha256 == before.candidate_sha256
}

/// The answer to the plan of the confirmation.
pub open spec fn takes_plan(
    before: Confirming,
    target_root: Seq<u8>,
    planned: Result<Option<InterpositionPlan>, String>,
    now: Confirming,
    action: ConfirmAction,
) -> bool {
    match planned {
        Err(message) => aborts_with(message@, before.run@, now, action),
        Ok(interposition) => match selected_build(before.run@) {
            Err(message) => aborts_with(message, before.run@, now, action),
            Ok(None) => match after(before.run@, Transition::NoCandidate) {
                Ok(run) => reports(run, now, action),
                Err(message) => aborts_with(message, before.run@, now, action),
            },
            Ok(Some(selected)) => match before.run@.baseline {
                None => aborts_with(
                    "Baseline build record is unavailable."@,
                    before.run@,
                    now,
                    action,
                ),
                Some(baseline) => {
                    &&& now.step == ConfirmStep::BaselineBuild
                    &&& now.run@ == before.run@
                    &&& now.accepted_inputs == before.accepted_inputs
                    &&& action matches ConfirmAction::Build(plan)
                    &&& is_confirmation_plan(
                        plan,
                        Strategy::Baseline,
                        target_root,
                        texts(baseline.invocation.cargo_config_overrides@),
                        None,
                    )
                    &&& now.candidate_plan is Some
                    &&& plans_selected(
                        now.candidate_plan->0,
                        selected,
                        target_root,
                        interposition,
                    )
                },
            },
        },
    }
}

/// The answer to the fresh build of the baseline.
pub open spec fn takes_baseline(
    before: Confirming,
    built: Result<BuildRecord, BuildFailure>,
    interrupted: bool,
    now: Confirming,
    action: ConfirmAction,
) -> bool {
    if interrupted {
        is_interrupted(before, now, action)
    } else {
        match built {
            Err(failure) => match after(
                before.run@,
                Transition::ConfirmationBaselineFailed(failure),
            ) {
                Ok(run) => fails_with(failure.message@, run, now, action),
                Err(message) => aborts_with(message, before.run@, now, action),
            },
            Ok(build) => match after(before.run@, Transition::ConfirmationBaseline(build)) {
                Err(message) => aborts_with(message, before.run@, now, action),
                Ok(run) => {
                    &&& now.step == ConfirmStep::CandidateBuild
                    &&& now.run@ == run
                    &&& now.baseline_path@ == build.executable_path@
                    &&& now.baseline_sha256@ == build.sha256@
                    &&& now.accepted_inputs == before.accepted_inputs
                    &&& action == ConfirmAction::Build(before.candidate_plan->0)
                },
            },
        }
    }
}

/// The parity of a confirmation rebuild with the accepted PGO build.
#[verifier::opaque]
pub open spec fn rebuild_decision(accepted: Option<StageView>, build: BuildRecord) -> ParityView {
    confirmation_decision(accepted, inputs_of_build(build))
}

fn decide_rebuild(accepted: Option<StageInputs>, build: &BuildRecord) -> (parity:
    CompilerParityRecord)
    ensures
        parity@ == rebuild_decision(optional_inputs(accepted), *build),
{
    reveal(rebuild_decision);
    decide_confirmation(accepted, observed_inputs(build))
}

/// Whether a recorded candidate is to be anchored, after its baseline.
pub open spec fn anchors_builds(
    before: Confirming,
    run: ManifestView,
    build: BuildRecord,
    now: Confirming,
    action: ConfirmAction,
) -> bool {
    match after(run, Transition::ConfirmationCandidate(build)) {
        Err(message) => aborts_with(message, run, now, action),
        Ok(recorded) => {
            &&& now.step == ConfirmStep::AnchoringBaseline
            &&& now.run@ == recorded
            &&& now.baseline_path == before.baseline_path
            &&& now.baseline_sha256 == before.baseline_sha256
            &&& now.candidate_path@ == build.executable_path@
            &&& now.candidate_sha256@ == build.sha256@
            &&& action matches ConfirmAction::Anchor(path, sha256)
            &&& path@ == before.baseline_path@
            &&& sha256@ == before.baseline_sha256@
        },
    }
}

/// The answer to the fresh build of the candidate. A PGO candidate must rebuild the accepted
/// compiler input contract, before any promotion can follow.
pub open spec fn takes_candidate(
    before: Confirming,
    built: Result<BuildRecord, BuildFailure>,
    interrupted: bool,
    now: Confirming,
    action: ConfirmAction,
) -> bool {
    if interrupted {
        is_interrupted(before, now, action)
    } else {
        match built {
            Err(failure) => match after(
                before.run@,
                Transition::ConfirmationCandidateRejected(failure),
            ) {
                Ok(run) => reports(run, now, action),
                Err(message) => aborts_with(message, before.run@, now, action),
            },
            Ok(build) => if build.invocation.strategy == Strategy::Pgo {
                let decision = rebuild_decision(optional_inputs(before.accepted_inputs), build);
                exists|parity: CompilerParityRecord| #[trigger]
                    takes_rebuild(before, build, parity, now, action) && parity@ == decision
            } else {
                anchors_builds(before, before.run@, build, now, action)
            },
        }
    }
}

/// The answer to the rebuild of a PGO candidate whose parity was decided.
pub open spec fn takes_rebuild(
    before: Confirming,
    build: BuildRecord,
    parity: CompilerParityRecord,
    now: Confirming,
    action: ConfirmAction,
) -> bool {
    if parity.matched {
        match after(before.run@, Transition::ConfirmationMatched(parity)) {
            Err(message) => aborts_with(message, before.run@, now, action),
            Ok(run) => anchors_builds(before, run, build, now, action),
        }
    } else {
        match after(before.run@, Transition::ConfirmationMismatched(build, parity)) {
            Err(message) => aborts_with(message, before.run@, now, action),
            Ok(run) => reports(run, now, action),
        }
    }
}

/// Whether a confirmation fails because an executable is not what was built.
pub open spec fn fails_changed(
    before: Confirming,
    message: Seq<char>,
    now: Confirming,
    action: ConfirmAction,
) -> bool {
    match after(before.run@, Transition::ConfirmationChanged(message)) {
        Ok(run) => fails_with(message, run, now, action),
        Err(error) => aborts_with(error, before.run@, now, action),
    }
}

/// The answer to the check of an executable.
pub open spec fn takes_check(
    before: Confirming,
    checked: Result<(), PromotionError>,
    now: Confirming,
    action: ConfirmAction,
) -> bool {
    match checked {
        Err(error) => fails_changed(before, error.message@, now, action),
        Ok(_) => match before.step {
            ConfirmStep::AnchoringBaseline => {
                &&& now.step == ConfirmStep::AnchoringCandidate
                &&& now.run@ == before.run@
                &&& keeps_builds(before, now)
                &&& action matches ConfirmAction::Anchor(path, sha256)
                &&& path@ == before.candidate_path@
                &&& sha256@ == before.candidate_sha256@
            },
            ConfirmStep::AnchoringCandidate => {
                &&& now.step == ConfirmStep::Measuring
                &&& now.run@ == before.run@
                &&& keeps_builds(before, now)
                &&& action is Measure
            },
            _ => match after(
                before.run@,
                Transition::ConfirmationMeasured(before.measurement->0),
            ) {
                Err(message) => aborts_with(message, before.run@, now, action),
                Ok(run) => if before.measurement->0.outcome == MeasurementOutcome::Accepted {
                    &&& now.step == ConfirmStep::Reserving
                    &&& now.run@ == run
                    &&& keeps_builds(before, now)
                    &&& action is Reserve
                } else {
                    reports(run, now, action)
                },
            },
        },
    }
}

/// The answer to the measurement.
pub open spec fn takes_measurement(
    before: Confirming,
    measured: Result<ConfirmationResult, ConfirmationFailure>,
    now: Confirming,
    action: ConfirmAction,
) -> bool {
    match measured {
        Ok(measurement) => {
            &&& now.step == ConfirmStep::Verifying
            &&& now.run@ == before.run@
            &&& keeps_builds(before, now)
            &&& now.measurement == Some(measurement)
            &&& action is Verify
        },
        Err(found) => if found.failure.kind == WorkloadFailureKind::Interrupted || found.step
            != ConfirmationStep::Candidate {
            match after(
                before.run@,
                Transition::ConfirmationWorkloadFailed(found.failure@),
            ) {
                Ok(run) => fails_with(found.failure.message@, run, now, action),
                Err(message) => aborts_with(message, before.run@, now, action),
            }
        } else {
            match after(
                before.run@,
                Transition::ConfirmationWorkloadRejected(found.failure@),
            ) {
                Ok(run) => reports(run, now, action),
                Err(message) => aborts_with(message, before.run@, now, action),
            }
        },
    }
}

/// Whether a promotion failed before anything was published, and its reserve is to be released.
pub open spec fn releases_failed(
    before: Confirming,
    message: Seq<char>,
    interrupted: bool,
    now: Confirming,
    action: ConfirmAction,
) -> bool {
    &&& now.step == ConfirmStep::ReleasingFailed
    &&& now.message@ == message
    &&& now.interrupted == interrupted
    &&& now.run@ == before.run@
    &&& action is ReleaseReserve
}

/// Whether a promotion cannot stand, and its artifact is to be removed.
pub open spec fn discards(
    run: ManifestView,
    message: Seq<char>,
    interrupted: bool,
    now: Confirming,
    action: ConfirmAction,
) -> bool {
    &&& now.step == ConfirmStep::Discarding
    &&& now.message@ == message
    &&& now.interrupted == interrupted
    &&& now.run@ == run
    &&& action is Discard
}

/// The answer to the reservation of space for a failure.
pub open spec fn takes_reservation(
    before: Confirming,
    reserved: Result<(), String>,
    now: Confirming,
    action: ConfirmAction,
) -> bool {
    match reserved {
        Err(error) => {
            &&& now.step == ConfirmStep::Activating
            &&& now.message@
                == "Could not reserve space for an atomic promotion failure record: "@ + error@
            &&& now.run@ == before.run@
            &&& action is ActivateEmergency
        },
        Ok(_) => match accepted_candidate(before.run@) {
            Err(message) => releases_failed(before, message, false, now, action),
            Ok((strategy, build)) => if build.sha256@ == before.candidate_sha256@ {
                &&& now.step == ConfirmStep::Promoting
                &&& now.run@ == before.run@
                &&& keeps_builds(before, now)
                &&& action == ConfirmAction::Promote(strategy)
            } else {
                releases_failed(
                    before,
                    "Accepted confirmation candidate checksum changed in run state."@,
                    false,
                    now,
                    action,
                )
            },
        },
    }
}

/// The answer to the promotion.
pub open spec fn takes_promotion(
    before: Confirming,
    directory: Seq<u8>,
    promoted: Result<PromotionRecord, PromotionError>,
    now: Confirming,
    action: ConfirmAction,
) -> bool {
    match promoted {
        Err(error) => releases_failed(
            before,
            error.message@,
            error.kind == PromotionErrorKind::Interrupted,
            now,
            action,
        ),
        Ok(promotion) => match after(before.run@, Transition::Promoted(promotion)) {
            Err(message) => discards(before.run@, message, false, now, action),
            Ok(run) => {
                &&& now.step == ConfirmStep::Publishing
                &&& now.run@ == run
                &&& action matches ConfirmAction::Publish(latest)
                &&& latest.run_id@ == run.head.run_id@
                &&& latest.artifact_path@ == promotion.promoted_path@
                &&& latest.artifact_sha256@ == promotion.promoted_sha256@
                &&& latest.source_strategy == promotion.source_strategy
                &&& latest.run_json@ == join_path(
                    directory,
                    vstd::utf8::encode_utf8("run.json"@),
                )
            },
        },
    }
}

/// The answer to the publication of the latest run.
pub open spec fn takes_publication(
    before: Confirming,
    published: Result<(), AnchoredError>,
    now: Confirming,
    action: ConfirmAction,
) -> bool {
    match published {
        Ok(_) => {
            &&& now.step == ConfirmStep::Releasing
            &&& now.run@ == before.run@
            &&& action is ReleaseReserve
        },
        Err(error) => if error.committed {
            &&& now.step == ConfirmStep::ReleasingCommitted
            &&& now.message@ == error.message@
            &&& now.run@ == before.run@
            &&& action is ReleaseReserve
        } else {
            discards(before.run@, error.message@, error.interrupted, now, action)
        },
    }
}

/// A message with what else failed, if it did.
pub open spec fn with_complaint(
    message: Seq<char>,
    context: Seq<char>,
    done: Result<(), String>,
) -> Seq<char> {
    match done {
        Ok(_) => message,
        Err(error) => message + context + error@,
    }
}

/// The answer to an operation that settles a promotion, or what failed of it.
pub open spec fn takes_settlement(
    before: Confirming,
    done: Result<(), String>,
    now: Confirming,
    action: ConfirmAction,
) -> bool {
    match before.step {
        ConfirmStep::Activating => fails_with(
            with_complaint(
                before.message@,
                " Emergency manifest activation also failed: "@,
                done,
            ),
            before.run@,
            now,
            action,
        ),
        ConfirmStep::Releasing => match done {
            Ok(_) => {
                &&& now.step == ConfirmStep::ReleasingEmergency
                &&& now.run@ == before.run@
                &&& action is ReleaseEmergency
            },
            Err(error) => {
                &&& now.step == ConfirmStep::ReleasingComplaint
                &&& now.run@ == before.run@
                &&& now.message@
                    == "Confirmed promotion succeeded, but its failure-space reserve could not be released: "@
                    + error@
                &&& action is ReleaseEmergency
            },
        },
        ConfirmStep::ReleasingEmergency => match done {
            Ok(_) => reports(before.run@, now, action),
            Err(error) => fails_with(
                "Confirmed promotion succeeded, but its emergency failure manifest could not be released: "@
                    + error@,
                before.run@,
                now,
                action,
            ),
        },
        ConfirmStep::ReleasingCommitted => {
            &&& now.step == ConfirmStep::ReleasingComplaint
            &&& now.run@ == before.run@
            &&& now.message@ == with_complaint(
                before.message@,
                " Promotion failure-space release also failed: "@,
                done,
            )
            &&& action is ReleaseEmergency
        },
        ConfirmStep::ReleasingComplaint => fails_with(
            with_complaint(
                before.message@,
                " Emergency promotion manifest release also failed: "@,
                done,
            ),
            before.run@,
            now,
            action,
        ),
        ConfirmStep::Discarding => {
            &&& now.step == ConfirmStep::ReleasingFailed
            &&& now.run@ == before.run@
            &&& now.interrupted == before.interrupted
            &&& now.message@ == with_complaint(
                before.message@,
                " Promoted artifact cleanup also failed: "@,
                done,
            )
            &&& action is ReleaseReserve
        },
        ConfirmStep::ReleasingFailed => {
            let message = with_complaint(
                before.message@,
                " Promotion failure-space release also failed: "@,
                done,
            );
            &&& now.step == ConfirmStep::PersistingFailure
            &&& now.message@ == message
            &&& after(
                before.run@,
                Transition::PromotionFailed(message, before.interrupted),
            ) == Ok::<ManifestView, Seq<char>>(now.run@)
            &&& action is Persist
        },
        ConfirmStep::PersistingFailure => fails_with(
            with_complaint(
                before.message@,
                " Promotion failure persistence also failed: "@,
                done,
            ),
            before.run@,
            now,
            action,
        ),
        _ => fails_with(
            with_complaint(
                before.message@,
                " Interrupted state persistence also failed: "@,
                done,
            ),
            before.run@,
            now,
            action,
        ),
    }
}

/// Whether a confirmation goes on from `before`, through `event`, to `now` and `action`.
pub open spec fn confirmation_advances(
    before: Confirming,
    directory: Seq<u8>,
    target_root: Seq<u8>,
    event: ConfirmEvent,
    now: Confirming,
    action: ConfirmAction,
) -> bool {
    match event {
        ConfirmEvent::Planned(planned) => takes_plan(before, target_root, planned, now, action),
        ConfirmEvent::Built(built, interrupted) => if before.step == ConfirmStep::BaselineBuild {
            takes_baseline(before, built, interrupted, now, action)
        } else {
            takes_candidate(before, built, interrupted, now, action)
        },
        ConfirmEvent::Checked(checked) => takes_check(before, checked, now, action),
        ConfirmEvent::Measured(measured) => takes_measurement(before, measured, now, action),
        ConfirmEvent::Promoted(promoted) => takes_promotion(
            before,
            directory,
            promoted,
            now,
            action,
        ),
        ConfirmEvent::Published(published) => takes_publication(before, published, now, action),
        ConfirmEvent::Did(done) => if before.step == ConfirmStep::Reserving {
            takes_reservation(before, done, now, action)
        } else {
            takes_settlement(before, done, now, action)
        },
    }
}

impl Confirming {
    /// Whether what a step needs was kept.
    pub open spec fn well_formed(self) -> bool {
        &&& self.step == ConfirmStep::BaselineBuild ==> self.candidate_plan is Some
        &&& self.step == ConfirmStep::Verifying ==> self.measurement is Some
    }

    /// Starts the confirmation of a run whose candidate was selected.
    pub fn start(run: RunManifest, accepted_inputs: Option<StageInputs>) -> (confirming: Confirming)
        ensures
            confirming.well_formed(),
            confirming.step == ConfirmStep::Planning,
            confirming.run == run,
            confirming.accepted_inputs == accepted_inputs,
            confirming.candidate_plan is None,
            confirming.baseline_path@.len() == 0,
            confirming.baseline_sha256@.len() == 0,
            confirming.candidate_path@.len() == 0,
            confirming.candidate_sha256@.len() == 0,
            confirming.measurement is None,
            confirming.message@.len() == 0,
            !confirming.interrupted,
    {
        Confirming {
            step: ConfirmStep::Planning,
            run,
            accepted_inputs,
            candidate_plan: None,
            baseline_path: Vec::new(),
            baseline_sha256: String::new(),
            candidate_path: Vec::new(),
            candidate_sha256: String::new(),
            measurement: None,
            message: String::new(),
            interrupted: false,
        }
    }

    fn report(&mut self) -> (action: ConfirmAction)
        ensures
            reports(old(self).run@, *final(self), action),
    {
        self.step = ConfirmStep::Over;
        ConfirmAction::Report
    }

    fn fail(&mut self, message: String) -> (action: ConfirmAction)
        ensures
            fails_with(message@, old(self).run@, *final(self), action),
    {
        self.step = ConfirmStep::Over;
        ConfirmAction::Fail(message)
    }

    fn abort(&mut self, error: TemperError) -> (action: ConfirmAction)
        ensures
            aborts_with(error@, old(self).run@, *final(self), action),
    {
        self.step = ConfirmStep::Over;
        ConfirmAction::Abort(error)
    }

    fn interrupt(&mut self) -> (action: ConfirmAction)
        ensures
            is_interrupted(*old(self), *final(self), action),
    {
        let message = text3(
            "Run interrupted by SIGINT during ",
            "confirmation",
            "; no artifact was promoted.",
        );
        let copy = message.clone();
        self.run.fail_interrupted("confirmation", copy);
        self.message = message;
        self.step = ConfirmStep::Interrupting;
        ConfirmAction::Persist
    }

    fn take_plan(
        &mut self,
        target_root: &[u8],
        planned: Result<Option<InterpositionPlan>, String>,
    ) -> (action: ConfirmAction)
        ensures
            takes_plan(*old(self), target_root@, planned, *final(self), action),
            final(self).well_formed(),
    {
        let interposition = match planned {
            Ok(interposition) => interposition,
            Err(message) => return self.abort(TemperError::new(message)),
        };
        match self.run.confirmation_plans(target_root, interposition) {
            Err(error) => self.abort(error),
            Ok(None) => match self.run.complete_without_candidate() {
                Ok(_) => self.report(),
                Err(error) => self.abort(error),
            },
            Ok(Some(plans)) => {
                self.candidate_plan = Some(plans.candidate);
                self.step = ConfirmStep::BaselineBuild;
                ConfirmAction::Build(plans.baseline)
            },
        }
    }

    fn take_baseline(&mut self, built: Result<BuildRecord, BuildFailure>) -> (action: ConfirmAction)
        requires
            old(self).candidate_plan is Some,
        ensures
            takes_baseline(*old(self), built, false, *final(self), action),
            final(self).well_formed(),
    {
        match built {
            Err(failure) => {
                let message = failure.message.clone();
                match self.run.fail_confirmation_baseline(failure) {
                    Ok(_) => self.fail(message),
                    Err(error) => self.abort(error),
                }
            },
            Ok(build) => {
                let path = build.executable_path.clone();
                let sha256 = build.sha256.clone();
                match self.run.record_confirmation_baseline(build) {
                    Err(error) => self.abort(error),
                    Ok(_) => {
                        self.baseline_path = path;
                        self.baseline_sha256 = sha256;
                        self.step = ConfirmStep::CandidateBuild;
                        match self.candidate_plan.take() {
                            Some(plan) => ConfirmAction::Build(plan),
                            None => ConfirmAction::Plan,
                        }
                    },
                }
            },
        }
    }

    fn anchor_builds(&mut self, build: BuildRecord) -> (action: ConfirmAction)
        ensures
            anchors_builds(*old(self), old(self).run@, build, *final(self), action),
            final(self).well_formed(),
    {
        let path = build.executable_path.clone();
        let sha256 = build.sha256.clone();
        match self.run.record_confirmation_candidate(build) {
            Err(error) => self.abort(error),
            Ok(_) => {
                self.candidate_path = path;
                self.candidate_sha256 = sha256;
                self.step = ConfirmStep::AnchoringBaseline;
                ConfirmAction::Anchor(self.baseline_path.clone(), self.baseline_sha256.clone())
            },
        }
    }

    fn take_rebuild(&mut self, build: BuildRecord, parity: CompilerParityRecord) -> (action:
        ConfirmAction)
        ensures
            takes_rebuild(*old(self), build, parity, *final(self), action),
            final(self).well_formed(),
    {
        if parity.matched {
            match self.run.record_confirmation_parity(parity) {
                Err(error) => self.abort(error),
                Ok(_) => self.anchor_builds(build),
            }
        } else {
            match self.run.reject_confirmation_parity(build, parity) {
                Err(error) => self.abort(error),
                Ok(_) => self.report(),
            }
        }
    }

    fn take_candidate(&mut self, built: Result<BuildRecord, BuildFailure>) -> (action:
        ConfirmAction)
        ensures
            takes_candidate(*old(self), built, false, *final(self), action),
            final(self).well_formed(),
    {
        match built {
            Err(failure) => match self.run.reject_confirmation_build(failure) {
                Ok(_) => self.report(),
                Err(error) => self.abort(error),
            },
            Ok(build) => {
                if build.invocation.strategy == Strategy::Pgo {
                    let parity = decide_rebuild(self.accepted_inputs.take(), &build);
                    let action = self.take_rebuild(build, parity);
                    assert(takes_rebuild(*old(self), build, parity, *self, action));
                    action
                } else {
                    self.anchor_builds(build)
                }
            },
        }
    }

    fn fail_changed(&mut self, error: PromotionError) -> (action: ConfirmAction)
        ensures
            fails_changed(*old(self), error.message@, *final(self), action),
            final(self).well_formed(),
    {
        let message = error.message.clone();
        match self.run.fail_confirmation_integrity(error.message) {
            Ok(_) => self.fail(message),
            Err(error) => self.abort(error),
        }
    }

    fn take_check(&mut self, checked: Result<(), PromotionError>) -> (action: ConfirmAction)
        requires
            old(self).well_formed(),
            is_awaited_by_confirmation(old(self).step, ConfirmEvent::Checked(checked)),
        ensures
            takes_check(*old(self), checked, *final(self), action),
            final(self).well_formed(),
    {
        if let Err(error) = checked {
            return self.fail_changed(error);
        }
        match self.step {
            ConfirmStep::AnchoringBaseline => {
                self.step = ConfirmStep::AnchoringCandidate;
                ConfirmAction::Anchor(self.candidate_path.clone(), self.candidate_sha256.clone())
            },
            ConfirmStep::AnchoringCandidate => {
                self.step = ConfirmStep::Measuring;
                ConfirmAction::Measure
            },
            _ => match self.measurement.take() {
                None => self.report(),
                Some(measurement) => match self.run.record_confirmation(measurement) {
                    Err(error) => self.abort(error),
                    Ok(accepted) => {
                        if accepted {
                            self.step = ConfirmStep::Reserving;
                            ConfirmAction::Reserve
                        } else {
                            self.report()
                        }
                    },
                },
            },
        }
    }

    fn take_measurement(&mut self, measured: Result<ConfirmationResult, ConfirmationFailure>) -> (
    action: ConfirmAction)
        ensures
            takes_measurement(*old(self), measured, *final(self), action),
            final(self).well_formed(),
    {
        match measured {
            Ok(measurement) => {
                self.measurement = Some(measurement);
                self.step = ConfirmStep::Verifying;
                ConfirmAction::Verify
            },
            Err(found) => {
                if found.failure.kind == WorkloadFailureKind::Interrupted || found.step
                    != ConfirmationStep::Candidate {
                    let message = found.failure.message.clone();
                    match self.run.fail_confirmation_workload(&found.failure) {
                        Ok(_) => self.fail(message),
                        Err(error) => self.abort(error),
                    }
                } else {
                    match self.run.reject_confirmation_workload(&found.failure) {
                        Ok(_) => self.report(),
                        Err(error) => self.abort(error),
                    }
                }
            },
        }
    }

    fn release_failed(&mut self, message: String, interrupted: bool) -> (action: ConfirmAction)
        ensures
            releases_failed(*old(self), message@, interrupted, *final(self), action),
            final(self).well_formed(),
    {
        self.message = message;
        self.interrupted = interrupted;
        self.step = ConfirmStep::ReleasingFailed;
        ConfirmAction::ReleaseReserve
    }

    fn discard(&mut self, message: String, interrupted: bool) -> (action: ConfirmAction)
        ensures
            discards(old(self).run@, message@, interrupted, *final(self), action),
            final(self).well_formed(),
    {
        self.message = message;
        self.interrupted = interrupted;
        self.step = ConfirmStep::Discarding;
        ConfirmAction::Discard
    }

    fn take_reservation(&mut self, reserved: Result<(), String>) -> (action: ConfirmAction)
        ensures
            takes_reservation(*old(self), reserved, *final(self), action),
            final(self).well_formed(),
    {
        if let Err(error) = reserved {
            self.message = text2(
                "Could not reserve space for an atomic promotion failure record: ",
                error.as_str(),
            );
            self.step = ConfirmStep::Activating;
            return ConfirmAction::ActivateEmergency;
        }
        let outcome: Result<Option<Strategy>, String> = match self.run.confirmation_candidate() {
            Ok((strategy, build)) => if same_text(
                build.sha256.as_str(),
                self.candidate_sha256.as_str(),
            ) {
                Ok(Some(strategy))
            } else {
                Ok(None)
            },
            Err(error) => Err(error.message().to_owned()),
        };
        match outcome {
            Ok(Some(strategy)) => {
                self.step = ConfirmStep::Promoting;
                ConfirmAction::Promote(strategy)
            },
            Ok(None) => self.release_failed(
                "Accepted confirmation candidate checksum changed in run state.".to_owned(),
                false,
            ),
            Err(message) => self.release_failed(message, false),
        }
    }

    fn take_promotion(
        &mut self,
        directory: &[u8],
        promoted: Result<PromotionRecord, PromotionError>,
    ) -> (action: ConfirmAction)
        ensures
            takes_promotion(*old(self), directory@, promoted, *final(self), action),
            final(self).well_formed(),
    {
        let promotion = match promoted {
            Ok(promotion) => promotion,
            Err(error) => {
                let interrupted: bool = error.kind == PromotionErrorKind::Interrupted;
                return self.release_failed(error.message, interrupted);
            },
        };
        match self.run.record_promotion(promotion) {
            Err(error) => {
                let message = error.message().to_owned();
                self.discard(message, false)
            },
            Ok(_) => match self.run.publish_latest(directory) {
                Ok(latest) => {
                    self.step = ConfirmStep::Publishing;
                    ConfirmAction::Publish(latest)
                },
                Err(error) => self.discard(error.message, error.interrupted),
            },
        }
    }

    fn take_publication(&mut self, published: Result<(), AnchoredError>) -> (action: ConfirmAction)
        ensures
            takes_publication(*old(self), published, *final(self), action),
            final(self).well_formed(),
    {
        match published {
            Ok(_) => {
                self.step = ConfirmStep::Releasing;
                ConfirmAction::ReleaseReserve
            },
            Err(error) => {
                if error.committed {
                    self.message = error.message;
                    self.step = ConfirmStep::ReleasingCommitted;
                    ConfirmAction::ReleaseReserve
                } else {
                    self.discard(error.message, error.interrupted)
                }
            },
        }
    }

    fn complaint(&self, context: &str, done: &Result<(), String>) -> (message: String)
        ensures
            message@ == with_complaint(self.message@, context@, *done),
    {
        match done {
            Ok(_) => self.message.clone(),
            Err(error) => text3(self.message.as_str(), context, error.as_str()),
        }
    }

    fn take_settlement(&mut self, done: Result<(), String>) -> (action: ConfirmAction)
        requires
            is_awaited_by_confirmation(old(self).step, ConfirmEvent::Did(done)),
            old(self).step != ConfirmStep::Reserving,
        ensures
            takes_settlement(*old(self), done, *final(self), action),
            final(self).well_formed(),
    {
        match self.step {
            ConfirmStep::Activating => {
                let message = self.complaint(
                    " Emergency manifest activation also failed: ",
                    &done,
                );
                self.fail(message)
            },
            ConfirmStep::Releasing => {
                match done {
                    Ok(_) => {
                        self.step = ConfirmStep::ReleasingEmergency;
                    },
                    Err(error) => {
                        self.message = text2(
                            "Confirmed promotion succeeded, but its failure-space reserve could not be released: ",
                            error.as_str(),
                        );
                        self.step = ConfirmStep::ReleasingComplaint;
                    },
                }
                ConfirmAction::ReleaseEmergency
            },
            ConfirmStep::ReleasingEmergency => match done {
                Ok(_) => self.report(),
                Err(error) => {
                    let message = text2(
                        "Confirmed promotion succeeded, but its emergency failure manifest could not be released: ",
                        error.as_str(),
                    );
                    self.fail(message)
                },
            },
            ConfirmStep::ReleasingCommitted => {
                self.message = self.complaint(
                    " Promotion failure-space release also failed: ",
                    &done,
                );
                self.step = ConfirmStep::ReleasingComplaint;
                ConfirmAction::ReleaseEmergency
            },
            ConfirmStep::ReleasingComplaint => {
                let message = self.complaint(
                    " Emergency promotion manifest release also failed: ",
                    &done,
                );
                self.fail(message)
            },
            ConfirmStep::Discarding => {
                self.message = self.complaint(" Promoted artifact cleanup also failed: ", &done);
                self.step = ConfirmStep::ReleasingFailed;
                ConfirmAction::ReleaseReserve
            },
            ConfirmStep::ReleasingFailed => {
                self.message = self.complaint(
                    " Promotion failure-space release also failed: ",
                    &done,
                );
                let copy = self.message.clone();
                self.run.fail_promotion(copy, self.interrupted);
                self.step = ConfirmStep::PersistingFailure;
                ConfirmAction::Persist
            },
            ConfirmStep::PersistingFailure => {
                let message = self.complaint(
                    " Promotion failure persistence also failed: ",
                    &done,
                );
                self.fail(message)
            },
            _ => {
                let message = self.complaint(
                    " Interrupted state persistence also failed: ",
                    &done,
                );
                self.fail(message)
            },
        }
    }

    /// Takes what the last piece of work came to, and says what is to be done next.
    pub fn advance(&mut self, directory: &[u8], target_root: &[u8], event: ConfirmEvent) -> (action:
        ConfirmAction)
        requires
            old(self).well_formed(),
            is_awaited_by_confirmation(old(self).step, event),
        ensures
            confirmation_advances(
                *old(self),
                directory@,
                target_root@,
                event,
                *final(self),
                action,
            ),
            final(self).well_formed(),
    {
        match event {
            ConfirmEvent::Planned(planned) => self.take_plan(target_root, planned),
            ConfirmEvent::Built(built, interrupted) => {
                if interrupted {
                    self.interrupt()
                } else if self.step == ConfirmStep::BaselineBuild {
                    self.take_baseline(built)
                } else {
                    self.take_candidate(built)
                }
            },
            ConfirmEvent::Checked(checked) => self.take_check(checked),
            ConfirmEvent::Measured(measured) => self.take_measurement(measured),
            ConfirmEvent::Promoted(promoted) => self.take_promotion(directory, promoted),
            ConfirmEvent::Published(published) => self.take_publication(published),
            ConfirmEvent::Did(done) => {
                if self.step == ConfirmStep::Reserving {
                    self.take_reservation(done)
                } else {
                    self.take_settlement(done)
                }
            },
        }
    }
}

/// A candidate is only promoted once its confirmation was accepted, and only the build with the
/// checksum that was confirmed.
pub proof fn law_promotion_follows_acceptance(
    before: Confirming,
    reserved: Result<(), String>,
    now: Confirming,
    action: ConfirmAction,
)
    requires
        takes_reservation(before, reserved, now, action),
        action is Promote,
    ensures
        now.run@.confirmation is Some,
        now.run@.confirmation->0.outcome == ConfirmationOutcome::Accepted,
        now.run@.confirmation->0.strategy == Some(action->Promote_0),
        now.run@.confirmation->0.candidate_build is Some,
        now.run@.confirmation->0.candidate_build->0.sha256@ == now.candidate_sha256@,
{
}

/// The pointer to the latest run is only published for a confirmed run, and names the promoted
/// artifact.
pub proof fn law_latest_runs_are_confirmed(
    before: Confirming,
    directory: Seq<u8>,
    promoted: Result<PromotionRecord, PromotionError>,
    now: Confirming,
    action: ConfirmAction,
)
    requires
        takes_promotion(before, directory, promoted, now, action),
        action is Publish,
    ensures
        now.run@.status == RunStatus::Confirmed,
        now.run@.promotion is Some,
        action->Publish_0.artifact_sha256@ == now.run@.promotion->0.promoted_sha256@,
        accepted_candidate(before.run@) is Ok,
        action->Publish_0.artifact_sha256@ == accepted_candidate(before.run@)->Ok_0.1.sha256@,
{
}

/// A PGO rebuild whose observed compiler inputs differ from the accepted ones never enters
/// promotion: the run ends without an improvement.
pub proof fn law_mismatched_rebuilds_are_rejected(
    before: Confirming,
    build: BuildRecord,
    parity: CompilerParityRecord,
    now: Confirming,
    action: ConfirmAction,
)
    requires
        takes_rebuild(before, build, parity, now, action),
        !parity.matched,
        before.run@.confirmation is Some,
    ensures
        action is Report,
        now.step == ConfirmStep::Over,
        now.run@.status == RunStatus::NoImprovement,
        now.run@.confirmation is Some,
        now.run@.confirmation->0.outcome == ConfirmationOutcome::Rejected,
{
}

/// Whether a confirmation goes on from `before`, through an event that it waits for.
#[verifier::opaque]
pub open spec fn goes_through(
    before: Confirming,
    directory: Seq<u8>,
    target_root: Seq<u8>,
    event: ConfirmEvent,
    now: Confirming,
    action: ConfirmAction,
) -> bool {
    &&& is_awaited_by_confirmation(before.step, event)
    &&& confirmation_advances(before, directory, target_root, event, now, action)
}

/// Whether a confirmation went through these states: each event takes one to the next, and asks
/// for an action.
pub open spec fn is_confirmation_run(
    states: Seq<Confirming>,
    directory: Seq<u8>,
    target_root: Seq<u8>,
    events: Seq<ConfirmEvent>,
    actions: Seq<ConfirmAction>,
) -> bool {
    &&& states.len() == events.len() + 1
    &&& actions.len() == events.len()
    &&& forall|i: int|
        0 <= i < events.len() ==> goes_through(
            states[i],
            directory,
            target_root,
            #[trigger] events[i],
            states[i + 1],
            actions[i],
        )
}

/// Whether a run is unchanged, or is recorded before or by an action.
pub open spec fn is_change_recorded(
    before: Confirming,
    now: Confirming,
    action: ConfirmAction,
) -> bool {
    ||| now.run@ == before.run@
    ||| is_recorded_first(action)
    ||| action is Persist
    ||| action is Publish
}

proof fn lemma_plans_are_recorded(
    before: Confirming,
    target_root: Seq<u8>,
    planned: Result<Option<InterpositionPlan>, String>,
    now: Confirming,
    action: ConfirmAction,
)
    requires
        takes_plan(before, target_root, planned, now, action),
    ensures
        is_change_recorded(before, now, action),
{
}

proof fn lemma_baselines_are_recorded(
    before: Confirming,
    built: Result<BuildRecord, BuildFailure>,
    interrupted: bool,
    now: Confirming,
    action: ConfirmAction,
)
    requires
        takes_baseline(before, built, interrupted, now, action),
    ensures
        is_change_recorded(before, now, action),
{
}

proof fn lemma_anchors_are_recorded(
    before: Confirming,
    run: ManifestView,
    build: BuildRecord,
    now: Confirming,
    action: ConfirmAction,
)
    requires
        anchors_builds(before, run, build, now, action),
    ensures
        is_recorded_first(action),
{
}

proof fn lemma_rebuilds_are_recorded(
    before: Confirming,
    build: BuildRecord,
    parity: CompilerParityRecord,
    now: Confirming,
    action: ConfirmAction,
)
    requires
        takes_rebuild(before, build, parity, now, action),
    ensures
        is_recorded_first(action),
{
    if parity.matched {
        match after(before.run@, Transition::ConfirmationMatched(parity)) {
            Ok(run) => {
                lemma_anchors_are_recorded(before, run, build, now, action);
            },
            Err(_) => {},
        }
    }
}

proof fn lemma_candidates_are_recorded(
    before: Confirming,
    built: Result<BuildRecord, BuildFailure>,
    interrupted: bool,
    now: Confirming,
    action: ConfirmAction,
)
    requires
        takes_candidate(before, built, interrupted, now, action),
    ensures
        is_change_recorded(before, now, action),
{
    if let Ok(build) = built {
        if !interrupted {
            if build.invocation.strategy == Strategy::Pgo {
                let decision = rebuild_decision(optional_inputs(before.accepted_inputs), build);
                let parity = choose|parity: CompilerParityRecord| #[trigger]
                    takes_rebuild(before, build, parity, now, action) && parity@ == decision;
                lemma_rebuilds_are_recorded(before, build, parity, now, action);
            } else {
                lemma_anchors_are_recorded(before, before.run@, build, now, action);
            }
        }
    }
}

proof fn lemma_checks_are_recorded(
    before: Confirming,
    checked: Result<(), PromotionError>,
    now: Confirming,
    action: ConfirmAction,
)
    requires
        takes_check(before, checked, now, action),
    ensures
        is_change_recorded(before, now, action),
{
}

proof fn lemma_measurements_are_recorded(
    before: Confirming,
    measured: Result<ConfirmationResult, ConfirmationFailure>,
    now: Confirming,
    action: ConfirmAction,
)
    requires
        takes_measurement(before, measured, now, action),
    ensures
        is_change_recorded(before, now, action),
{
}

proof fn lemma_promotions_are_recorded(
    before: Confirming,
    directory: Seq<u8>,
    promoted: Result<PromotionRecord, PromotionError>,
    now: Confirming,
    action: ConfirmAction,
)
    requires
        takes_promotion(before, directory, promoted, now, action),
    ensures
        is_change_recorded(before, now, action),
{
}

proof fn lemma_settlements_are_recorded(
    before: Confirming,
    done: Result<(), String>,
    now: Confirming,
    action: ConfirmAction,
)
    requires
        takes_settlement(before, done, now, action),
    ensures
        is_change_recorded(before, now, action),
{
}

/// No change of a run is passed over: whatever changes it is recorded before or by the action
/// that follows.
pub proof fn law_changes_are_recorded(
    before: Confirming,
    directory: Seq<u8>,
    target_root: Seq<u8>,
    event: ConfirmEvent,
    now: Confirming,
    action: ConfirmAction,
)
    requires
        goes_through(before, directory, target_root, event, now, action),
        now.run@ != before.run@,
    ensures
        is_recorded_first(action) || action is Persist || action is Publish,
{
    reveal(goes_through);
    match event {
        ConfirmEvent::Planned(planned) => {
            lemma_plans_are_recorded(before, target_root, planned, now, action);
        },
        ConfirmEvent::Built(built, interrupted) => {
            if before.step == ConfirmStep::BaselineBuild {
                lemma_baselines_are_recorded(before, built, interrupted, now, action);
            } else {
                lemma_candidates_are_recorded(before, built, interrupted, now, action);
            }
        },
        ConfirmEvent::Checked(checked) => {
            lemma_checks_are_recorded(before, checked, now, action);
        },
        ConfirmEvent::Measured(measured) => {
            lemma_measurements_are_recorded(before, measured, now, action);
        },
        ConfirmEvent::Promoted(promoted) => {
            lemma_promotions_are_recorded(before, directory, promoted, now, action);
        },
        ConfirmEvent::Published(_) => {},
        ConfirmEvent::Did(done) => {
            if before.step != ConfirmStep::Reserving {
                lemma_settlements_are_recorded(before, done, now, action);
            }
        },
    }
}

/// Whether one of the first `count` events is this measurement.
pub open spec fn was_measured(
    events: Seq<ConfirmEvent>,
    count: int,
    measurement: ConfirmationResult,
) -> bool {
    exists|i: int|
        0 <= i < count && #[trigger] events[i] == ConfirmEvent::Measured(
            Ok::<ConfirmationResult, ConfirmationFailure>(measurement),
        )
}

/// Whether the confirmation of a run was accepted.
pub open spec fn is_accepted(run: ManifestView) -> bool {
    run.confirmation is Some && run.confirmation->0.outcome == ConfirmationOutcome::Accepted
}

/// Whether a confirmation that was accepted rests on an accepted measurement among the first
/// `count` events.
pub open spec fn accepted_as_measured(
    run: ManifestView,
    events: Seq<ConfirmEvent>,
    count: int,
) -> bool {
    is_accepted(run) ==> {
        &&& run.confirmation->0.measurement matches Some(measurement)
        &&& measurement.outcome == MeasurementOutcome::Accepted
        &&& was_measured(events, count, measurement)
    }
}

proof fn lemma_still_measured(
    events: Seq<ConfirmEvent>,
    count: int,
    more: int,
    measurement: ConfirmationResult,
)
    requires
        0 <= count <= more <= events.len(),
        was_measured(events, count, measurement),
    ensures
        was_measured(events, more, measurement),
{
    let place = choose|i: int|
        0 <= i < count && #[trigger] events[i] == ConfirmEvent::Measured(
            Ok::<ConfirmationResult, ConfirmationFailure>(measurement),
        );
    assert(events[place] == ConfirmEvent::Measured(
        Ok::<ConfirmationResult, ConfirmationFailure>(measurement),
    ));
}

/// Whether a confirmation that is accepted was so before, with the same measurement.
pub open spec fn accepts_nothing_new(before: ManifestView, now: ManifestView) -> bool {
    is_accepted(now) ==> is_accepted(before) && now.confirmation->0.measurement
        == before.confirmation->0.measurement
}

proof fn lemma_only_measurements_accept(run: ManifestView, transition: Transition)
    requires
        after(run, transition) is Ok,
    ensures
        !(transition is ConfirmationMeasured) ==> accepts_nothing_new(
            run,
            after(run, transition)->Ok_0,
        ),
        transition matches Transition::ConfirmationMeasured(measurement) ==> {
            let now = after(run, transition)->Ok_0;
            is_accepted(now) ==> {
                &&& now.confirmation->0.measurement == Some(measurement)
                &&& measurement.outcome == MeasurementOutcome::Accepted
            }
        },
        transition is Promoted ==> is_accepted(after(run, transition)->Ok_0),
{
}

/// Whether a confirmation that is accepted either was so before, with the same measurement, or
/// was accepted by a verified measurement.
pub open spec fn accepts_by_measurement(before: Confirming, now: Confirming) -> bool {
    ||| accepts_nothing_new(before.run@, now.run@)
    ||| {
        &&& before.step == ConfirmStep::Verifying
        &&& now.run@.confirmation->0.measurement == Some(before.measurement->0)
        &&& before.measurement->0.outcome == MeasurementOutcome::Accepted
    }
}

proof fn lemma_builds_accept_nothing(
    before: Confirming,
    directory: Seq<u8>,
    target_root: Seq<u8>,
    event: ConfirmEvent,
    now: Confirming,
    action: ConfirmAction,
)
    requires
        event is Planned || event is Built,
        confirmation_advances(before, directory, target_root, event, now, action),
    ensures
        accepts_nothing_new(before.run@, now.run@),
        now.step != ConfirmStep::Verifying,
        !(action is Promote),
        !(action is Publish),
{
    match event {
        ConfirmEvent::Planned(_) => {
            if after(before.run@, Transition::NoCandidate) is Ok {
                lemma_only_measurements_accept(before.run@, Transition::NoCandidate);
            }
        },
        ConfirmEvent::Built(built, interrupted) => {
            let interruption = Transition::Interrupted(
                "confirmation"@,
                interruption_message("confirmation"@),
            );
            if interrupted {
                lemma_only_measurements_accept(before.run@, interruption);
            } else {
                match built {
                    Err(failure) => {
                        let failed = Transition::ConfirmationBaselineFailed(failure);
                        let rejected = Transition::ConfirmationCandidateRejected(failure);
                        if after(before.run@, failed) is Ok {
                            lemma_only_measurements_accept(before.run@, failed);
                        }
                        if after(before.run@, rejected) is Ok {
                            lemma_only_measurements_accept(before.run@, rejected);
                        }
                    },
                    Ok(build) => {
                        if before.step == ConfirmStep::BaselineBuild {
                            let recorded = Transition::ConfirmationBaseline(build);
                            if after(before.run@, recorded) is Ok {
                                lemma_only_measurements_accept(before.run@, recorded);
                            }
                        } else {
                            lemma_candidates_accept_nothing(before, build, now, action);
                        }
                    },
                }
            }
        },
        _ => {},
    }
}

proof fn lemma_candidates_accept_nothing(
    before: Confirming,
    build: BuildRecord,
    now: Confirming,
    action: ConfirmAction,
)
    requires
        takes_candidate(before, Ok(build), false, now, action),
    ensures
        accepts_nothing_new(before.run@, now.run@),
        now.step != ConfirmStep::Verifying,
        !(action is Promote),
        !(action is Publish),
{
    if build.invocation.strategy == Strategy::Pgo {
        let decision = rebuild_decision(optional_inputs(before.accepted_inputs), build);
        let parity = choose|parity: CompilerParityRecord| #[trigger]
            takes_rebuild(before, build, parity, now, action) && parity@ == decision;
        if parity.matched {
            let matched = Transition::ConfirmationMatched(parity);
            if after(before.run@, matched) is Ok {
                lemma_only_measurements_accept(before.run@, matched);
                lemma_anchoring_accepts_nothing(
                    before,
                    after(before.run@, matched)->Ok_0,
                    build,
                    now,
                    action,
                );
            }
        } else {
            let mismatched = Transition::ConfirmationMismatched(build, parity);
            if after(before.run@, mismatched) is Ok {
                lemma_only_measurements_accept(before.run@, mismatched);
            }
        }
    } else {
        lemma_anchoring_accepts_nothing(before, before.run@, build, now, action);
    }
}

proof fn lemma_anchoring_accepts_nothing(
    before: Confirming,
    run: ManifestView,
    build: BuildRecord,
    now: Confirming,
    action: ConfirmAction,
)
    requires
        anchors_builds(before, run, build, now, action),
    ensures
        accepts_nothing_new(run, now.run@),
        now.step != ConfirmStep::Verifying,
        !(action is Promote),
        !(action is Publish),
{
    let recorded = Transition::ConfirmationCandidate(build);
    if after(run, recorded) is Ok {
        lemma_only_measurements_accept(run, recorded);
    }
}

proof fn lemma_checks_accept_by_measurement(
    before: Confirming,
    checked: Result<(), PromotionError>,
    now: Confirming,
    action: ConfirmAction,
)
    requires
        takes_check(before, checked, now, action),
        is_awaited_by_confirmation(before.step, ConfirmEvent::Checked(checked)),
    ensures
        accepts_by_measurement(before, now),
        now.step != ConfirmStep::Verifying,
        !(action is Promote),
        !(action is Publish),
{
    match checked {
        Err(error) => {
            let changed = Transition::ConfirmationChanged(error.message@);
            if after(before.run@, changed) is Ok {
                lemma_only_measurements_accept(before.run@, changed);
            }
        },
        Ok(_) => {
            let measured = Transition::ConfirmationMeasured(before.measurement->0);
            if before.step == ConfirmStep::Verifying && after(before.run@, measured) is Ok {
                lemma_only_measurements_accept(before.run@, measured);
            }
        },
    }
}

proof fn lemma_measurements_are_kept(
    before: Confirming,
    measured: Result<ConfirmationResult, ConfirmationFailure>,
    now: Confirming,
    action: ConfirmAction,
)
    requires
        takes_measurement(before, measured, now, action),
    ensures
        accepts_nothing_new(before.run@, now.run@),
        now.step == ConfirmStep::Verifying ==> measured is Ok && now.measurement == Some(
            measured->Ok_0,
        ),
        !(action is Promote),
        !(action is Publish),
{
    if let Err(found) = measured {
        let failed = Transition::ConfirmationWorkloadFailed(found.failure@);
        let rejected = Transition::ConfirmationWorkloadRejected(found.failure@);
        if after(before.run@, failed) is Ok {
            lemma_only_measurements_accept(before.run@, failed);
        }
        if after(before.run@, rejected) is Ok {
            lemma_only_measurements_accept(before.run@, rejected);
        }
    }
}

proof fn lemma_promotions_accept_nothing(
    before: Confirming,
    directory: Seq<u8>,
    target_root: Seq<u8>,
    event: ConfirmEvent,
    now: Confirming,
    action: ConfirmAction,
)
    requires
        event is Promoted || event is Published || event is Did,
        is_awaited_by_confirmation(before.step, event),
        confirmation_advances(before, directory, target_root, event, now, action),
    ensures
        accepts_nothing_new(before.run@, now.run@),
        now.step != ConfirmStep::Verifying,
        action is Promote || action is Publish ==> is_accepted(now.run@),
{
    match event {
        ConfirmEvent::Promoted(Ok(promotion)) => {
            let promoted = Transition::Promoted(promotion);
            if after(before.run@, promoted) is Ok {
                lemma_only_measurements_accept(before.run@, promoted);
            }
        },
        ConfirmEvent::Did(done) => {
            let message = with_complaint(
                before.message@,
                " Promotion failure-space release also failed: "@,
                done,
            );
            let failed = Transition::PromotionFailed(message, before.interrupted);
            if before.step == ConfirmStep::ReleasingFailed {
                lemma_only_measurements_accept(before.run@, failed);
            }
        },
        _ => {},
    }
}

proof fn lemma_steps_accept_by_measurement(
    before: Confirming,
    directory: Seq<u8>,
    target_root: Seq<u8>,
    event: ConfirmEvent,
    now: Confirming,
    action: ConfirmAction,
)
    requires
        goes_through(before, directory, target_root, event, now, action),
    ensures
        accepts_by_measurement(before, now),
        now.step == ConfirmStep::Verifying ==> now.measurement is Some && event
            == ConfirmEvent::Measured(
            Ok::<ConfirmationResult, ConfirmationFailure>(now.measurement->0),
        ),
        action is Promote || action is Publish ==> is_accepted(now.run@),
{
    reveal(goes_through);
    match event {
        ConfirmEvent::Planned(_) | ConfirmEvent::Built(_, _) => {
            lemma_builds_accept_nothing(before, directory, target_root, event, now, action);
        },
        ConfirmEvent::Checked(checked) => {
            lemma_checks_accept_by_measurement(before, checked, now, action);
        },
        ConfirmEvent::Measured(measured) => {
            lemma_measurements_are_kept(before, measured, now, action);
        },
        _ => {
            lemma_promotions_accept_nothing(before, directory, target_root, event, now, action);
        },
    }
}

proof fn lemma_accepted_as_measured(
    states: Seq<Confirming>,
    directory: Seq<u8>,
    target_root: Seq<u8>,
    events: Seq<ConfirmEvent>,
    actions: Seq<ConfirmAction>,
    count: int,
)
    requires
        is_confirmation_run(states, directory, target_root, events, actions),
        states[0].step == ConfirmStep::Planning,
        !is_accepted(states[0].run@),
        0 <= count <= events.len(),
    ensures
        accepted_as_measured(states[count].run@, events, count),
        states[count].step == ConfirmStep::Verifying ==> {
            &&& states[count].measurement is Some
            &&& was_measured(events, count, states[count].measurement->0)
        },
    decreases count,
{
    if count > 0 {
        let before = states[count - 1];
        let event = events[count - 1];
        let now = states[count];
        lemma_accepted_as_measured(states, directory, target_root, events, actions, count - 1);
        lemma_steps_accept_by_measurement(
            before,
            directory,
            target_root,
            event,
            now,
            actions[count - 1],
        );
        if is_accepted(now.run@) {
            let measurement = now.run@.confirmation->0.measurement->0;
            lemma_still_measured(events, count - 1, count, measurement);
        }
    }
}

/// Whatever happens on the way, a confirmation only asks for a promotion, or for a pointer to the
/// promoted artifact, after the workload was measured on both executables and that measurement
/// was accepted; the run records that measurement.
pub proof fn law_only_measured_improvements_are_promoted(
    states: Seq<Confirming>,
    directory: Seq<u8>,
    target_root: Seq<u8>,
    events: Seq<ConfirmEvent>,
    actions: Seq<ConfirmAction>,
    place: int,
)
    requires
        is_confirmation_run(states, directory, target_root, events, actions),
        states[0].step == ConfirmStep::Planning,
        !is_accepted(states[0].run@),
        0 <= place < events.len(),
        actions[place] is Promote || actions[place] is Publish,
    ensures
        ({
            let run = states[place + 1].run@;
            &&& is_accepted(run)
            &&& run.confirmation->0.measurement is Some
            &&& run.confirmation->0.measurement->0.outcome == MeasurementOutcome::Accepted
            &&& was_measured(events, place + 1, run.confirmation->0.measurement->0)
        }),
{
    lemma_accepted_as_measured(states, directory, target_root, events, actions, place + 1);
    lemma_steps_accept_by_measurement(
        states[place],
        directory,
        target_root,
        events[place],
        states[place + 1],
        actions[place],
    );
}

/// The message of a failed run, whose final report was emitted or not.
pub fn run_failure_message(message: &str, emitted: &Result<(), String>) -> (full: String)
    ensures
        full@ == with_complaint(message@, " Final report emission also failed: "@, *emitted),
{
    match emitted {
        Ok(_) => message.to_owned(),
        Err(error) => text3(message, " Final report emission also failed: ", error.as_str()),
    }
}

/// The message of a run that failed before it was created; a report is only emitted as JSON.
pub fn pre_run_failure_message(message: &str, json: bool, emitted: &Result<(), String>) -> (full:
    String)
    ensures
        full@ == if json {
            with_complaint(message@, " Preflight JSON emission also failed: "@, *emitted)
        } else {
            message@
        },
{
    if !json {
        return message.to_owned();
    }
    match emitted {
        Ok(_) => message.to_owned(),
        Err(error) => text3(message, " Preflight JSON emission also failed: ", error.as_str()),
    }
}

/// An accepted confirmation goes all the way to its publication, as long as nothing fails: the
/// two fresh builds are anchored, measured and verified, space is reserved, the accepted candidate
/// is promoted, the pointer to the run is published, and the run is reported.
pub proof fn law_accepted_candidates_are_published(
    before: Confirming,
    directory: Seq<u8>,
    target_root: Seq<u8>,
    event: ConfirmEvent,
    now: Confirming,
    action: ConfirmAction,
)
    requires
        confirmation_advances(before, directory, target_root, event, now, action),
        is_awaited_by_confirmation(before.step, event),
        !(action is Abort),
    ensures
        match (before.step, event) {
            (ConfirmStep::AnchoringBaseline, ConfirmEvent::Checked(Ok(_))) => now.step
                == ConfirmStep::AnchoringCandidate && (action matches ConfirmAction::Anchor(
                path,
                sha256,
            ) && path@ == before.candidate_path@ && sha256@ == before.candidate_sha256@),
            (ConfirmStep::AnchoringCandidate, ConfirmEvent::Checked(Ok(_))) => now.step
                == ConfirmStep::Measuring && action is Measure,
            (ConfirmStep::Measuring, ConfirmEvent::Measured(Ok(measurement))) => now.step
                == ConfirmStep::Verifying && action is Verify && now.measurement == Some(
                measurement,
            ) && now.run@ == before.run@,
            (ConfirmStep::Verifying, ConfirmEvent::Checked(Ok(_))) => {
                &&& before.measurement->0.outcome == MeasurementOutcome::Accepted ==> now.step
                    == ConfirmStep::Reserving && action is Reserve
                &&& before.measurement->0.outcome != MeasurementOutcome::Accepted ==> action
                    is Report
                &&& now.run@.confirmation is Some
                &&& now.run@.confirmation->0.measurement == Some(before.measurement->0)
            },
            (ConfirmStep::Reserving, ConfirmEvent::Did(Ok(_))) => {
                &&& (before.run@.confirmation matches Some(confirmation) && confirmation.outcome
                    == ConfirmationOutcome::Accepted && (confirmation.candidate_build matches Some(
                    build,
                ) && build.sha256@ == before.candidate_sha256@) && confirmation.strategy is Some)
                    ==> now.step == ConfirmStep::Promoting && action == ConfirmAction::Promote(
                    before.run@.confirmation->0.strategy->0,
                )
            },
            (ConfirmStep::Promoting, ConfirmEvent::Promoted(Ok(promotion))) => after(
                before.run@,
                Transition::Promoted(promotion),
            ) is Ok ==> {
                &&& now.step == ConfirmStep::Publishing
                &&& action matches ConfirmAction::Publish(latest) && latest.artifact_path@
                    == promotion.promoted_path@ && latest.artifact_sha256@
                    == promotion.promoted_sha256@
            },
            (ConfirmStep::Publishing, ConfirmEvent::Published(Ok(_))) => now.step
                == ConfirmStep::Releasing && action is ReleaseReserve && now.run@ == before.run@,
            (ConfirmStep::Releasing, ConfirmEvent::Did(Ok(_))) => now.step
                == ConfirmStep::ReleasingEmergency && action is ReleaseEmergency && now.run@
                == before.run@,
            (ConfirmStep::ReleasingEmergency, ConfirmEvent::Did(Ok(_))) => action is Report
                && now.run@ == before.run@,
            _ => true,
        },
{
}

/// A promotion that fails before its commit is undone and recorded: what was promoted is
/// discarded, the reserve is released, and the run is recorded as failed and ends with the
/// message.
pub proof fn law_failed_promotions_are_undone(
    before: Confirming,
    directory: Seq<u8>,
    target_root: Seq<u8>,
    event: ConfirmEvent,
    now: Confirming,
    action: ConfirmAction,
)
    requires
        confirmation_advances(before, directory, target_root, event, now, action),
        is_awaited_by_confirmation(before.step, event),
    ensures
        match (before.step, event) {
            (ConfirmStep::Promoting, ConfirmEvent::Promoted(Err(error))) => {
                &&& now.step == ConfirmStep::ReleasingFailed
                &&& action is ReleaseReserve
                &&& now.message@ == error.message@
                &&& now.interrupted == (error.kind == PromotionErrorKind::Interrupted)
            },
            (ConfirmStep::Publishing, ConfirmEvent::Published(Err(error))) => {
                &&& now.message@ == error.message@
                &&& !error.committed ==> now.step == ConfirmStep::Discarding && action is Discard
                    && now.interrupted == error.interrupted
                &&& error.committed ==> now.step == ConfirmStep::ReleasingCommitted && action
                    is ReleaseReserve
            },
            (ConfirmStep::Discarding, ConfirmEvent::Did(_)) => {
                &&& now.step == ConfirmStep::ReleasingFailed
                &&& action is ReleaseReserve
                &&& before.message@.is_prefix_of(now.message@)
                &&& now.interrupted == before.interrupted
            },
            (ConfirmStep::ReleasingFailed, ConfirmEvent::Did(_)) => {
                &&& now.step == ConfirmStep::PersistingFailure
                &&& action is Persist
                &&& before.message@.is_prefix_of(now.message@)
                &&& now.run@.status == if before.interrupted {
                    RunStatus::Interrupted
                } else {
                    RunStatus::Failed
                }
            },
            (ConfirmStep::PersistingFailure, ConfirmEvent::Did(_)) => {
                &&& now.step == ConfirmStep::Over
                &&& action matches ConfirmAction::Fail(message) && before.message@.is_prefix_of(
                    message@,
                )
            },
            _ => true,
        },
{
}

/// A measurement that fails is the candidate's fault only where the candidate was running, and it
/// was not interrupted: then the run ends without an improvement. Otherwise the run fails.
pub proof fn law_measurement_failures_are_told_apart(
    before: Confirming,
    found: ConfirmationFailure,
    now: Confirming,
    action: ConfirmAction,
)
    requires
        takes_measurement(before, Err(found), now, action),
        before.run@.confirmation is Some,
    ensures
        now.step == ConfirmStep::Over,
        found.step == ConfirmationStep::Candidate && found.failure.kind
            != WorkloadFailureKind::Interrupted ==> action is Report && now.run@.status
            == RunStatus::NoImprovement,
        found.step != ConfirmationStep::Candidate || found.failure.kind
            == WorkloadFailureKind::Interrupted ==> action is Fail && now.run@.failure is Some,
{
}

/// A confirmation builds the baseline and the candidate anew, the candidate from the plan that was
/// made for it, and keeps the path and the checksum of each build for its measurement.
pub proof fn law_confirmations_measure_fresh_builds(
    before: Confirming,
    directory: Seq<u8>,
    target_root: Seq<u8>,
    build: BuildRecord,
    now: Confirming,
    action: ConfirmAction,
)
    requires
        confirmation_advances(
            before,
            directory,
            target_root,
            ConfirmEvent::Built(Ok(build), false),
            now,
            action,
        ),
        before.step == ConfirmStep::BaselineBuild || before.step == ConfirmStep::CandidateBuild,
        before.candidate_plan is Some,
        before.run@.confirmation is Some,
    ensures
        before.step == ConfirmStep::BaselineBuild ==> {
            &&& now.step == ConfirmStep::CandidateBuild
            &&& now.baseline_path@ == build.executable_path@
            &&& now.baseline_sha256@ == build.sha256@
            &&& action == ConfirmAction::Build(before.candidate_plan->0)
        },
        before.step == ConfirmStep::CandidateBuild && (build.invocation.strategy != Strategy::Pgo
            || confirmation_decision(
            optional_inputs(before.accepted_inputs),
            inputs_of_build(build),
        ).matched) ==> {
            &&& now.step == ConfirmStep::AnchoringBaseline
            &&& now.candidate_path@ == build.executable_path@
            &&& now.candidate_sha256@ == build.sha256@
            &&& now.run@.confirmation is Some
            &&& now.run@.confirmation->0.candidate_build == Some(build)
            &&& action matches ConfirmAction::Anchor(path, sha256) && path@ == before.baseline_path@
                && sha256@ == before.baseline_sha256@
        },
        before.step == ConfirmStep::CandidateBuild && build.invocation.strategy == Strategy::Pgo
            && !confirmation_decision(
            optional_inputs(before.accepted_inputs),
            inputs_of_build(build),
        ).matched ==> action is Report && now.run@.status == RunStatus::NoImprovement,
{
    reveal(rebuild_decision);
}

} // verus!
