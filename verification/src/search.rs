//! The search of one run: builds, screenings and PGO training, up to the selected candidate.
//!
//! A search alternates outside work and decisions. It takes what the last piece of work came to,
//! records it in the run, and says what is to be done next. The run is persisted before the next
//! piece of work begins.

use vstd::prelude::*;
use vstd::string::*;
use vstd::utf8::*;

use crate::cargo::{BuildFailure, BuildRecord};
use crate::error::TemperError;
use crate::measurement::{MeasurementOutcome, ScreeningResult};
use crate::parity::{
    decide_training, inputs_of_evidence, optional_inputs, stage_inputs, training_decision,
    CompilerParityRecord, ParityView, StageInputs, StageView,
};
use crate::paths::join_path;
use crate::run::{after, pending_confirmation, ManifestView, RunManifest, Transition};
use crate::strategy::{
    competing, first_stage, identity_label, is_lowest, law_the_baseline_is_never_selected,
    law_the_fastest_candidate_is_selected, law_the_lowest_median_is_no_greater,
    lowest_median_strategy, overrides_of, selected_candidate, BuildPlan, Strategy,
};
use crate::text::{text3, texts};
use crate::training::PgoTrainingOutcome;
use crate::workload::{plain_failure, unstable_message, WorkloadFailure, WorkloadFailureKind};

verus! {

/// Which piece of work a search waits for.
#[derive(Clone, Copy, Debug, PartialEq, Eq, Structural)]
pub enum SearchStep {
    Preflight,
    BaselineBuild,
    /// The builds of the two candidates that need no training.
    ThinBuild,
    FatBuild,
    BaselineScreen,
    /// The screening of the artifact at the search's place.
    StaticScreen,
    Training,
    PgoBuild,
    PgoScreen,
    /// The interrupted run is being persisted.
    Interrupting,
    Over,
}

/// What a piece of work came to.
#[derive(Debug)]
pub enum SearchEvent {
    /// Whether the run was interrupted.
    Checked(bool),
    /// A build, and whether the run was interrupted meanwhile.
    Built(Result<BuildRecord, BuildFailure>, bool),
    /// A screening, and its relative deviation with six decimals.
    Screened(Result<ScreeningResult, WorkloadFailure>, String),
    /// A training, and whether the run was interrupted meanwhile.
    Trained(PgoTrainingOutcome, bool),
    Persisted(Result<(), String>),
}

/// The next piece of work.
#[derive(Debug)]
pub enum SearchAction {
    CheckInterrupt,
    Build(BuildPlan),
    Screen(Vec<u8>),
    Train(Strategy),
    /// Record the run. A run that changed is recorded before any other action too, and cannot go
    /// on where that fails.
    Persist,
    /// The search is over, and selected a candidate or none.
    Select(Option<Strategy>),
    /// The run failed with this message, and is to be reported.
    Fail(String),
    /// The run cannot go on.
    Abort(TemperError),
}

/// A search in progress.
#[derive(Debug)]
pub struct Search {
    pub step: SearchStep,
    pub run: RunManifest,
    pub baseline_path: Vec<u8>,
    pub artifacts: Vec<(Strategy, Vec<u8>)>,
    /// The artifact that is being screened.
    pub place: usize,
    /// The stable measurements so far.
    pub valid: Vec<(Strategy, u64)>,
    pub reference_inputs: Option<StageInputs>,
    pub instrumentation_inputs: Option<StageInputs>,
    /// The observed inputs of the PGO build that passed training parity. The confirmation rebuild
    /// is compared against them before promotion.
    pub accepted_inputs: Option<StageInputs>,
    pub message: String,
}

/// Whether an event is one that a search waits for.
pub open spec fn is_awaited_by_search(step: SearchStep, event: SearchEvent) -> bool {
    match step {
        SearchStep::Preflight => event is Checked,
        SearchStep::BaselineBuild | SearchStep::ThinBuild | SearchStep::FatBuild => event is Built,
        SearchStep::PgoBuild => event is Built,
        SearchStep::BaselineScreen | SearchStep::StaticScreen | SearchStep::PgoScreen => {
            event is Screened
        },
        SearchStep::Training => event is Trained,
        SearchStep::Interrupting => event is Persisted,
        SearchStep::Over => false,
    }
}

/// The message of an interrupted run.
pub open spec fn interruption_message(phase: Seq<char>) -> Seq<char> {
    "Run interrupted by SIGINT during "@ + phase + "; no artifact was promoted."@
}

/// A run after something that always can happen to it.
pub open spec fn then(run: ManifestView, transition: Transition) -> ManifestView {
    after(run, transition)->Ok_0
}

/// Whether a plan builds a strategy for the first time.
pub open spec fn is_first_plan(plan: BuildPlan, strategy: Strategy, target_root: Seq<u8>) -> bool {
    &&& plan.strategy == strategy
    &&& plan.stage == first_stage(strategy)
    &&& plan.target_directory@ == join_path(target_root, encode_utf8(identity_label(strategy)))
    &&& texts(plan.cargo_config_overrides@) == overrides_of(strategy)
    &&& plan.interposition is None
}

/// Whether a search was interrupted in a phase.
pub open spec fn is_interrupted_in(
    before: Search,
    phase: Seq<char>,
    now: Search,
    action: SearchAction,
) -> bool {
    &&& now.step == SearchStep::Interrupting
    &&& action is Persist
    &&& now.message@ == interruption_message(phase)
    &&& now.run@ == then(
        before.run@,
        Transition::Interrupted(phase, interruption_message(phase)),
    )
}

/// Whether a search failed with a message, and left this run.
pub open spec fn fails_with(
    message: Seq<char>,
    run: ManifestView,
    now: Search,
    action: SearchAction,
) -> bool {
    &&& now.step == SearchStep::Over
    &&& action matches SearchAction::Fail(found)
    &&& found@ == message
    &&& now.run@ == run
}

/// Whether a search gave up because a run cannot take a transition.
pub open spec fn aborts(
    run: ManifestView,
    transition: Transition,
    now: Search,
    action: SearchAction,
) -> bool {
    &&& now.step == SearchStep::Over
    &&& action matches SearchAction::Abort(error)
    &&& after(run, transition) == Err::<ManifestView, Seq<char>>(error@)
    &&& now.run@ == run
}

/// Whether what a search gathered besides its run is unchanged.
pub open spec fn gathers_nothing(before: Search, now: Search) -> bool {
    &&& now.baseline_path == before.baseline_path
    &&& now.artifacts == before.artifacts
    &&& now.valid == before.valid
    &&& now.accepted_inputs == before.accepted_inputs
}

/// A search's answer to the first check.
pub open spec fn checks_preflight(
    before: Search,
    target_root: Seq<u8>,
    interrupted: bool,
    now: Search,
    action: SearchAction,
) -> bool {
    if interrupted {
        is_interrupted_in(before, "preflight"@, now, action)
    } else {
        &&& now.step == SearchStep::BaselineBuild
        &&& now.run@ == before.run@
        &&& gathers_nothing(before, now)
        &&& action matches SearchAction::Build(plan)
        &&& is_first_plan(plan, Strategy::Baseline, target_root)
    }
}

/// A search's answer to the build of the baseline.
pub open spec fn takes_baseline(
    before: Search,
    target_root: Seq<u8>,
    built: Result<BuildRecord, BuildFailure>,
    interrupted: bool,
    now: Search,
    action: SearchAction,
) -> bool {
    if interrupted {
        is_interrupted_in(before, "baseline_build"@, now, action)
    } else {
        match built {
            Err(failure) => fails_with(
                failure.message@,
                then(before.run@, Transition::BaselineFailed(failure)),
                now,
                action,
            ),
            Ok(build) => {
                &&& now.step == SearchStep::ThinBuild
                &&& now.run@ == then(before.run@, Transition::BaselineBuilt(build))
                &&& now.baseline_path@ == build.executable_path@
                &&& now.artifacts == before.artifacts
                &&& now.valid == before.valid
                &&& now.accepted_inputs == before.accepted_inputs
                &&& action matches SearchAction::Build(plan)
                &&& is_first_plan(plan, Strategy::ThinLto, target_root)
            },
        }
    }
}

/// The artifacts of a search.
pub open spec fn artifact_views(artifacts: Seq<(Strategy, Vec<u8>)>) -> Seq<(Strategy, Seq<u8>)> {
    artifacts.map_values(|artifact: (Strategy, Vec<u8>)| (artifact.0, artifact.1@))
}

/// The artifacts after the build of a strategy.
pub open spec fn with_artifact(
    artifacts: Seq<(Strategy, Vec<u8>)>,
    strategy: Strategy,
    built: Result<BuildRecord, BuildFailure>,
) -> Seq<(Strategy, Seq<u8>)> {
    match built {
        Ok(build) => artifact_views(artifacts).push((strategy, build.executable_path@)),
        Err(_) => artifact_views(artifacts),
    }
}

/// A run after the build of a candidate that needs no training.
pub open spec fn with_static_build(
    run: ManifestView,
    built: Result<BuildRecord, BuildFailure>,
) -> ManifestView {
    match built {
        Ok(build) => then(run, Transition::StaticBuilt(build)),
        Err(failure) => then(run, Transition::StaticRejected(failure)),
    }
}

/// A search's answer to the build of a candidate that needs no training.
pub open spec fn takes_static(
    before: Search,
    target_root: Seq<u8>,
    built: Result<BuildRecord, BuildFailure>,
    interrupted: bool,
    now: Search,
    action: SearchAction,
) -> bool {
    let first = before.step == SearchStep::ThinBuild;
    let strategy = if first {
        Strategy::ThinLto
    } else {
        Strategy::FatLtoCgu1
    };
    let recorded = with_static_build(before.run@, built);
    if interrupted {
        is_interrupted_in(before, "static_builds"@, now, action)
    } else {
        &&& artifact_views(now.artifacts@) == with_artifact(before.artifacts@, strategy, built)
        &&& now.baseline_path == before.baseline_path
        &&& now.valid == before.valid
        &&& now.accepted_inputs == before.accepted_inputs
        &&& if first {
            &&& now.step == SearchStep::FatBuild
            &&& now.run@ == recorded
            &&& action matches SearchAction::Build(plan)
            &&& is_first_plan(plan, Strategy::FatLtoCgu1, target_root)
        } else {
            &&& now.step == SearchStep::BaselineScreen
            &&& now.run@ == then(recorded, Transition::ScreeningBegun)
            &&& action matches SearchAction::Screen(path)
            &&& path@ == before.baseline_path@
        }
    }
}

/// Whether a search goes on with the screening of its next artifact, or with the training on the
/// strategy that is fastest so far.
pub open spec fn screens_next(
    run: ManifestView,
    artifacts: Seq<(Strategy, Vec<u8>)>,
    place: int,
    now: Search,
    action: SearchAction,
) -> bool {
    if place < artifacts.len() {
        &&& now.step == SearchStep::StaticScreen
        &&& now.place == place
        &&& now.run@ == run
        &&& action matches SearchAction::Screen(path)
        &&& path@ == artifacts[place].1@
    } else if now.valid@.len() == 0 {
        &&& now.step == SearchStep::Over
        &&& now.run@ == run
        &&& action matches SearchAction::Abort(error)
        &&& error@ == "No valid pre-PGO strategy remained after screening."@
    } else {
        &&& now.step == SearchStep::Training
        &&& action matches SearchAction::Train(base)
        &&& is_lowest(now.valid@, base)
        &&& now.run@ == then(run, Transition::ScreeningCompleted(base))
    }
}

/// A search's answer to the screening of the baseline.
pub open spec fn takes_baseline_screening(
    before: Search,
    screened: Result<ScreeningResult, WorkloadFailure>,
    dispersion: Seq<char>,
    now: Search,
    action: SearchAction,
) -> bool {
    match screened {
        Err(failure) => fails_with(
            failure.message@,
            then(before.run@, Transition::WorkloadFailed("screening"@, failure@)),
            now,
            action,
        ),
        Ok(measurement) => {
            let recorded = then(before.run@, Transition::BaselineScreened(measurement));
            if measurement.outcome != MeasurementOutcome::Stable {
                fails_with(
                    unstable_message(dispersion),
                    then(
                        recorded,
                        Transition::WorkloadFailed(
                            "screening"@,
                            plain_failure(
                                WorkloadFailureKind::MeasurementFailed,
                                unstable_message(dispersion),
                            ),
                        ),
                    ),
                    now,
                    action,
                )
            } else {
                &&& now.artifacts == before.artifacts
                &&& now.accepted_inputs == before.accepted_inputs
                &&& now.valid@ == seq![(Strategy::Baseline, measurement.median_duration_ns)]
                &&& screens_next(recorded, before.artifacts@, 0, now, action)
            }
        },
    }
}

/// The stable measurements after one more screening.
pub open spec fn with_measurement(
    valid: Seq<(Strategy, u64)>,
    strategy: Strategy,
    measurement: ScreeningResult,
) -> Seq<(Strategy, u64)> {
    if measurement.outcome == MeasurementOutcome::Stable {
        valid.push((strategy, measurement.median_duration_ns))
    } else {
        valid
    }
}

/// A search's answer to the screening of an artifact.
pub open spec fn takes_static_screening(
    before: Search,
    screened: Result<ScreeningResult, WorkloadFailure>,
    now: Search,
    action: SearchAction,
) -> bool {
    let strategy = before.artifacts@[before.place as int].0;
    match screened {
        Err(failure) => if failure.kind == WorkloadFailureKind::Interrupted {
            fails_with(
                failure.message@,
                then(before.run@, Transition::WorkloadFailed("screening"@, failure@)),
                now,
                action,
            )
        } else {
            match after(before.run@, Transition::StrategyRejected(strategy, failure@)) {
                Err(_) => aborts(
                    before.run@,
                    Transition::StrategyRejected(strategy, failure@),
                    now,
                    action,
                ),
                Ok(recorded) => {
                    &&& now.artifacts == before.artifacts
                    &&& now.valid@ == before.valid@
                    &&& now.accepted_inputs == before.accepted_inputs
                    &&& screens_next(recorded, before.artifacts@, before.place + 1, now, action)
                },
            }
        },
        Ok(measurement) => match after(
            before.run@,
            Transition::StrategyScreened(strategy, measurement),
        ) {
            Err(_) => aborts(
                before.run@,
                Transition::StrategyScreened(strategy, measurement),
                now,
                action,
            ),
            Ok(recorded) => {
                &&& now.artifacts == before.artifacts
                &&& now.valid@ == with_measurement(before.valid@, strategy, measurement)
                &&& now.accepted_inputs == before.accepted_inputs
                &&& screens_next(recorded, before.artifacts@, before.place + 1, now, action)
            },
        },
    }
}

/// Whether a search ends with its selection, from a run whose PGO build is settled.
pub open spec fn selects(
    settled: ManifestView,
    valid: Seq<(Strategy, u64)>,
    now: Search,
    action: SearchAction,
) -> bool {
    &&& now.step == SearchStep::Over
    &&& now.valid@ == valid
    &&& action matches SearchAction::Select(selected)
    &&& match selected {
        Some(strategy) => is_lowest(competing(valid), strategy),
        None => competing(valid).len() == 0,
    }
    &&& now.run@ == then(
        then(settled, Transition::PgoCompleted),
        Transition::CandidateSelected(selected),
    )
}

/// A search's answer to a training.
pub open spec fn takes_training(
    before: Search,
    outcome: PgoTrainingOutcome,
    interrupted: bool,
    now: Search,
    action: SearchAction,
) -> bool {
    match outcome {
        PgoTrainingOutcome::Interrupted(record, failure) => fails_with(
            failure.message@,
            then(before.run@, Transition::PgoTrainingFailed(record, failure@)),
            now,
            action,
        ),
        PgoTrainingOutcome::Rejected(record) => if interrupted {
            is_interrupted_in(before, "pgo_training"@, now, action)
        } else {
            &&& now.accepted_inputs == before.accepted_inputs
            &&& selects(
                then(then(before.run@, Transition::PgoTrained(record)), Transition::PgoSkipped),
                before.valid@,
                now,
                action,
            )
        },
        PgoTrainingOutcome::Trained(success) => if interrupted {
            is_interrupted_in(before, "pgo_training"@, now, action)
        } else {
            &&& now.step == SearchStep::PgoBuild
            &&& now.run@ == then(before.run@, Transition::PgoTrained(success.record))
            &&& now.valid == before.valid
            &&& now.accepted_inputs == before.accepted_inputs
            &&& now.reference_inputs == success.reference_inputs
            &&& now.instrumentation_inputs == success.instrumentation_inputs
            &&& action == SearchAction::Build(success.optimized_plan)
        },
    }
}

/// The observed inputs of a build.
#[verifier::opaque]
pub open spec fn inputs_of_build(build: BuildRecord) -> Option<StageView> {
    match (build.invocation.interposition, build.compiler_evidence) {
        (Some(record), Some(aggregate)) => Some(inputs_of_evidence(record, aggregate)),
        _ => None,
    }
}

/// The observed inputs of a build.
pub fn observed_inputs(build: &BuildRecord) -> (inputs: Option<StageInputs>)
    ensures
        optional_inputs(inputs) == inputs_of_build(*build),
{
    reveal(inputs_of_build);
    stage_inputs(&build.invocation.interposition, &build.compiler_evidence)
}

/// The parity of a PGO candidate with the stages of its training.
#[verifier::opaque]
pub open spec fn pgo_decision(
    reference: Option<StageView>,
    instrumentation: Option<StageView>,
    build: BuildRecord,
) -> ParityView {
    training_decision(reference, instrumentation, inputs_of_build(build))
}

/// Decides the parity of a PGO candidate with the stages of its training.
fn decide_pgo(
    reference: Option<StageInputs>,
    instrumentation: Option<StageInputs>,
    build: &BuildRecord,
) -> (parity: CompilerParityRecord)
    ensures
        parity@ == pgo_decision(
            optional_inputs(reference),
            optional_inputs(instrumentation),
            *build,
        ),
{
    reveal(pgo_decision);
    decide_training(reference, instrumentation, observed_inputs(build))
}

/// A search's answer to the build of the PGO candidate. Observed parity is decided after every PGO
/// stage has executed and before the candidate can receive a single screening sample; a mismatch
/// rejects only PGO.
pub open spec fn takes_pgo_build(
    before: Search,
    built: Result<BuildRecord, BuildFailure>,
    interrupted: bool,
    now: Search,
    action: SearchAction,
) -> bool {
    if interrupted {
        is_interrupted_in(before, "pgo_build"@, now, action)
    } else {
        match built {
            Err(failure) => selects(
                then(before.run@, Transition::PgoRejected(failure)),
                before.valid@,
                now,
                action,
            ) && now.accepted_inputs == before.accepted_inputs,
            Ok(build) => {
                let decision = pgo_decision(
                    optional_inputs(before.reference_inputs),
                    optional_inputs(before.instrumentation_inputs),
                    build,
                );
                if decision.matched {
                    &&& now.step == SearchStep::PgoScreen
                    &&& now.valid == before.valid
                    &&& optional_inputs(now.accepted_inputs) == inputs_of_build(build)
                    &&& now.run@.pgo_parity is Some
                    &&& now.run@.pgo_parity->0@ == decision
                    &&& now.run@ == then(
                        then(before.run@, Transition::PgoMatched(now.run@.pgo_parity->0)),
                        Transition::PgoBuilt(build),
                    )
                    &&& action matches SearchAction::Screen(path)
                    &&& path@ == build.executable_path@
                } else {
                    &&& now.accepted_inputs == before.accepted_inputs
                    &&& now.run@.pgo_parity is Some
                    &&& now.run@.pgo_parity->0@ == decision
                    &&& selects(
                        then(
                            before.run@,
                            Transition::PgoMismatched(build, now.run@.pgo_parity->0),
                        ),
                        before.valid@,
                        now,
                        action,
                    )
                }
            },
        }
    }
}

/// A search's answer to the screening of the PGO candidate.
pub open spec fn takes_pgo_screening(
    before: Search,
    screened: Result<ScreeningResult, WorkloadFailure>,
    now: Search,
    action: SearchAction,
) -> bool {
    match screened {
        Err(failure) => if failure.kind == WorkloadFailureKind::Interrupted {
            fails_with(
                failure.message@,
                then(before.run@, Transition::WorkloadFailed("pgo_build"@, failure@)),
                now,
                action,
            )
        } else {
            match after(before.run@, Transition::StrategyRejected(Strategy::Pgo, failure@)) {
                Err(_) => aborts(
                    before.run@,
                    Transition::StrategyRejected(Strategy::Pgo, failure@),
                    now,
                    action,
                ),
                Ok(recorded) => selects(recorded, before.valid@, now, action)
                    && now.accepted_inputs == before.accepted_inputs,
            }
        },
        Ok(measurement) => match after(
            before.run@,
            Transition::StrategyScreened(Strategy::Pgo, measurement),
        ) {
            Err(_) => aborts(
                before.run@,
                Transition::StrategyScreened(Strategy::Pgo, measurement),
                now,
                action,
            ),
            Ok(recorded) => selects(
                recorded,
                with_measurement(before.valid@, Strategy::Pgo, measurement),
                now,
                action,
            ) && now.accepted_inputs == before.accepted_inputs,
        },
    }
}

/// A search's answer to the persistence of its interrupted run.
pub open spec fn takes_persistence(
    before: Search,
    persisted: Result<(), String>,
    now: Search,
    action: SearchAction,
) -> bool {
    fails_with(
        match persisted {
            Ok(_) => before.message@,
            Err(error) => before.message@ + " Interrupted state persistence also failed: "@
                + error@,
        },
        before.run@,
        now,
        action,
    )
}

/// Whether a search goes on from `before`, through `event`, to `now` and `action`.
pub open spec fn search_advances(
    before: Search,
    target_root: Seq<u8>,
    event: SearchEvent,
    now: Search,
    action: SearchAction,
) -> bool {
    match (before.step, event) {
        (SearchStep::Preflight, SearchEvent::Checked(interrupted)) => checks_preflight(
            before,
            target_root,
            interrupted,
            now,
            action,
        ),
        (SearchStep::BaselineBuild, SearchEvent::Built(built, interrupted)) => takes_baseline(
            before,
            target_root,
            built,
            interrupted,
            now,
            action,
        ),
        (SearchStep::ThinBuild, SearchEvent::Built(built, interrupted)) => takes_static(
            before,
            target_root,
            built,
            interrupted,
            now,
            action,
        ),
        (SearchStep::FatBuild, SearchEvent::Built(built, interrupted)) => takes_static(
            before,
            target_root,
            built,
            interrupted,
            now,
            action,
        ),
        (
            SearchStep::BaselineScreen,
            SearchEvent::Screened(screened, dispersion),
        ) => takes_baseline_screening(before, screened, dispersion@, now, action),
        (SearchStep::StaticScreen, SearchEvent::Screened(screened, _)) => takes_static_screening(
            before,
            screened,
            now,
            action,
        ),
        (SearchStep::Training, SearchEvent::Trained(outcome, interrupted)) => takes_training(
            before,
            outcome,
            interrupted,
            now,
            action,
        ),
        (SearchStep::PgoBuild, SearchEvent::Built(built, interrupted)) => takes_pgo_build(
            before,
            built,
            interrupted,
            now,
            action,
        ),
        (SearchStep::PgoScreen, SearchEvent::Screened(screened, _)) => takes_pgo_screening(
            before,
            screened,
            now,
            action,
        ),
        (SearchStep::Interrupting, SearchEvent::Persisted(persisted)) => takes_persistence(
            before,
            persisted,
            now,
            action,
        ),
        _ => false,
    }
}

impl Search {
    /// Whether the place of a screening is that of an artifact.
    pub open spec fn well_formed(self) -> bool {
        self.step == SearchStep::StaticScreen ==> self.place < self.artifacts@.len()
    }

    /// Starts the search of a run: it sees first whether the run was interrupted.
    pub fn start(run: RunManifest) -> (search: Search)
        ensures
            search.well_formed(),
            search.step == SearchStep::Preflight,
            search.run == run,
            search.baseline_path@.len() == 0,
            search.artifacts@.len() == 0,
            search.place == 0,
            search.valid@.len() == 0,
            search.reference_inputs is None,
            search.instrumentation_inputs is None,
            search.accepted_inputs is None,
            search.message@.len() == 0,
    {
        Search {
            step: SearchStep::Preflight,
            run,
            baseline_path: Vec::new(),
            artifacts: Vec::new(),
            place: 0,
            valid: Vec::new(),
            reference_inputs: None,
            instrumentation_inputs: None,
            accepted_inputs: None,
            message: String::new(),
        }
    }

    fn interrupt(&mut self, phase: &'static str) -> (action: SearchAction)
        ensures
            is_interrupted_in(*old(self), phase@, *final(self), action),
    {
        let message = text3(
            "Run interrupted by SIGINT during ",
            phase,
            "; no artifact was promoted.",
        );
        let copy = message.clone();
        self.run.fail_interrupted(phase, copy);
        self.message = message;
        self.step = SearchStep::Interrupting;
        SearchAction::Persist
    }

    fn take_baseline(
        &mut self,
        target_root: &[u8],
        built: Result<BuildRecord, BuildFailure>,
    ) -> (action: SearchAction)
        ensures
            takes_baseline(*old(self), target_root@, built, false, *final(self), action),
    {
        match built {
            Err(failure) => {
                let message = failure.message.clone();
                self.run.fail_baseline(failure);
                self.step = SearchStep::Over;
                SearchAction::Fail(message)
            },
            Ok(build) => {
                self.baseline_path = build.executable_path.clone();
                self.run.complete_baseline(build);
                self.step = SearchStep::ThinBuild;
                SearchAction::Build(BuildPlan::candidate(Strategy::ThinLto, target_root))
            },
        }
    }

    fn take_static(
        &mut self,
        target_root: &[u8],
        built: Result<BuildRecord, BuildFailure>,
    ) -> (action: SearchAction)
        requires
            old(self).step == SearchStep::ThinBuild || old(self).step == SearchStep::FatBuild,
        ensures
            takes_static(*old(self), target_root@, built, false, *final(self), action),
    {
        let first: bool = self.step == SearchStep::ThinBuild;
        let strategy: Strategy = if first {
            Strategy::ThinLto
        } else {
            Strategy::FatLtoCgu1
        };
        match built {
            Ok(build) => {
                let executable = build.executable_path.clone();
                self.run.record_static_build(build);
                self.artifacts.push((strategy, executable));
                assert(artifact_views(self.artifacts@) =~= artifact_views(
                    old(self).artifacts@,
                ).push((strategy, executable@)));
            },
            Err(failure) => {
                self.run.reject_static_build(failure);
            },
        }
        if first {
            self.step = SearchStep::FatBuild;
            SearchAction::Build(BuildPlan::candidate(Strategy::FatLtoCgu1, target_root))
        } else {
            self.run.begin_screening();
            self.step = SearchStep::BaselineScreen;
            SearchAction::Screen(self.baseline_path.clone())
        }
    }

    fn screen_next(&mut self, place: usize) -> (action: SearchAction)
        ensures
            final(self).artifacts == old(self).artifacts,
            final(self).valid@ == old(self).valid@,
            final(self).accepted_inputs == old(self).accepted_inputs,
            screens_next(
                old(self).run@,
                old(self).artifacts@,
                place as int,
                *final(self),
                action,
            ),
            final(self).well_formed(),
    {
        if place < self.artifacts.len() {
            self.place = place;
            self.step = SearchStep::StaticScreen;
            return SearchAction::Screen(self.artifacts[place].1.clone());
        }
        match lowest_median_strategy(self.valid.as_slice()) {
            None => {
                self.step = SearchStep::Over;
                SearchAction::Abort(
                    TemperError::new(
                        "No valid pre-PGO strategy remained after screening.".to_owned(),
                    ),
                )
            },
            Some(base) => {
                self.run.complete_screening(base);
                self.step = SearchStep::Training;
                SearchAction::Train(base)
            },
        }
    }

    fn take_baseline_screening(
        &mut self,
        screened: Result<ScreeningResult, WorkloadFailure>,
        dispersion: &str,
    ) -> (action: SearchAction)
        ensures
            takes_baseline_screening(*old(self), screened, dispersion@, *final(self), action),
            final(self).well_formed(),
    {
        match screened {
            Err(failure) => {
                self.run.fail_workload("screening", &failure);
                self.step = SearchStep::Over;
                SearchAction::Fail(failure.message)
            },
            Ok(measurement) => {
                let median: u64 = measurement.median_duration_ns;
                let stable: bool = measurement.outcome == MeasurementOutcome::Stable;
                self.run.record_baseline_screening(measurement);
                if !stable {
                    let failure = WorkloadFailure::unstable_baseline(dispersion);
                    self.run.fail_workload("screening", &failure);
                    self.step = SearchStep::Over;
                    return SearchAction::Fail(failure.message);
                }
                let mut valid: Vec<(Strategy, u64)> = Vec::new();
                valid.push((Strategy::Baseline, median));
                self.valid = valid;
                self.screen_next(0)
            },
        }
    }

    fn take_static_screening(&mut self, screened: Result<ScreeningResult, WorkloadFailure>) -> (
    action: SearchAction)
        requires
            old(self).step == SearchStep::StaticScreen,
            old(self).well_formed(),
        ensures
            takes_static_screening(*old(self), screened, *final(self), action),
            final(self).well_formed(),
    {
        let strategy: Strategy = self.artifacts[self.place].0;
        let total: usize = self.artifacts.len();
        let next: usize = if self.place < total {
            self.place + 1
        } else {
            total
        };
        match screened {
            Err(failure) => {
                if failure.kind == WorkloadFailureKind::Interrupted {
                    self.run.fail_workload("screening", &failure);
                    self.step = SearchStep::Over;
                    return SearchAction::Fail(failure.message);
                }
                match self.run.reject_strategy_workload(strategy, &failure) {
                    Ok(_) => self.screen_next(next),
                    Err(error) => {
                        self.step = SearchStep::Over;
                        SearchAction::Abort(error)
                    },
                }
            },
            Ok(measurement) => {
                let median: u64 = measurement.median_duration_ns;
                let stable: bool = measurement.outcome == MeasurementOutcome::Stable;
                match self.run.record_strategy_screening(strategy, measurement) {
                    Ok(_) => {
                        if stable {
                            self.valid.push((strategy, median));
                        }
                        self.screen_next(next)
                    },
                    Err(error) => {
                        self.step = SearchStep::Over;
                        SearchAction::Abort(error)
                    },
                }
            },
        }
    }

    fn finish(&mut self) -> (action: SearchAction)
        ensures
            selects(old(self).run@, old(self).valid@, *final(self), action),
            final(self).accepted_inputs == old(self).accepted_inputs,
            final(self).run@.pgo_parity == old(self).run@.pgo_parity,
    {
        self.run.complete_pgo_build();
        let selected = selected_candidate(self.valid.as_slice());
        self.run.select_candidate(selected);
        self.step = SearchStep::Over;
        SearchAction::Select(selected)
    }

    fn take_training(&mut self, outcome: PgoTrainingOutcome, interrupted: bool) -> (action:
        SearchAction)
        ensures
            takes_training(*old(self), outcome, interrupted, *final(self), action),
            !(final(self).step == SearchStep::StaticScreen),
    {
        match outcome {
            PgoTrainingOutcome::Interrupted(record, failure) => {
                self.run.fail_pgo_training(record, &failure);
                self.step = SearchStep::Over;
                SearchAction::Fail(failure.message)
            },
            PgoTrainingOutcome::Rejected(record) => {
                if interrupted {
                    return self.interrupt("pgo_training");
                }
                self.run.record_pgo_training(record);
                self.run.skip_pgo_build();
                self.finish()
            },
            PgoTrainingOutcome::Trained(success) => {
                if interrupted {
                    return self.interrupt("pgo_training");
                }
                self.run.record_pgo_training(success.record);
                self.reference_inputs = success.reference_inputs;
                self.instrumentation_inputs = success.instrumentation_inputs;
                self.step = SearchStep::PgoBuild;
                SearchAction::Build(success.optimized_plan)
            },
        }
    }

    fn screen_pgo(&mut self, build: BuildRecord, parity: CompilerParityRecord) -> (action:
        SearchAction)
        ensures
            final(self).step == SearchStep::PgoScreen,
            final(self).valid == old(self).valid,
            optional_inputs(final(self).accepted_inputs) == inputs_of_build(build),
            final(self).run@ == then(
                then(old(self).run@, Transition::PgoMatched(parity)),
                Transition::PgoBuilt(build),
            ),
            final(self).run@.pgo_parity == Some(parity),
            action matches SearchAction::Screen(path) && path@ == build.executable_path@,
    {
        self.accepted_inputs = observed_inputs(&build);
        let executable = build.executable_path.clone();
        self.run.record_pgo_parity(parity);
        self.run.record_pgo_build(build);
        self.step = SearchStep::PgoScreen;
        SearchAction::Screen(executable)
    }

    fn refuse_pgo(&mut self, build: BuildRecord, parity: CompilerParityRecord) -> (action:
        SearchAction)
        ensures
            selects(
                then(old(self).run@, Transition::PgoMismatched(build, parity)),
                old(self).valid@,
                *final(self),
                action,
            ),
            final(self).accepted_inputs == old(self).accepted_inputs,
            final(self).run@.pgo_parity == Some(parity),
    {
        self.run.reject_pgo_parity(build, parity);
        self.finish()
    }

    #[verifier::rlimit(40)]
    fn take_pgo_build(&mut self, built: Result<BuildRecord, BuildFailure>) -> (action: SearchAction)
        ensures
            takes_pgo_build(*old(self), built, false, *final(self), action),
            !(final(self).step == SearchStep::StaticScreen),
    {
        match built {
            Err(failure) => {
                self.run.reject_pgo_build(failure);
                self.finish()
            },
            Ok(build) => {
                let parity = decide_pgo(
                    self.reference_inputs.take(),
                    self.instrumentation_inputs.take(),
                    &build,
                );
                if parity.matched {
                    self.screen_pgo(build, parity)
                } else {
                    self.refuse_pgo(build, parity)
                }
            },
        }
    }

    fn take_pgo_screening(&mut self, screened: Result<ScreeningResult, WorkloadFailure>) -> (action:
        SearchAction)
        ensures
            takes_pgo_screening(*old(self), screened, *final(self), action),
            !(final(self).step == SearchStep::StaticScreen),
    {
        match screened {
            Err(failure) => {
                if failure.kind == WorkloadFailureKind::Interrupted {
                    self.run.fail_workload("pgo_build", &failure);
                    self.step = SearchStep::Over;
                    return SearchAction::Fail(failure.message);
                }
                match self.run.reject_strategy_workload(Strategy::Pgo, &failure) {
                    Ok(_) => self.finish(),
                    Err(error) => {
                        self.step = SearchStep::Over;
                        SearchAction::Abort(error)
                    },
                }
            },
            Ok(measurement) => {
                let median: u64 = measurement.median_duration_ns;
                let stable: bool = measurement.outcome == MeasurementOutcome::Stable;
                match self.run.record_strategy_screening(Strategy::Pgo, measurement) {
                    Ok(_) => {
                        if stable {
                            self.valid.push((Strategy::Pgo, median));
                        }
                        self.finish()
                    },
                    Err(error) => {
                        self.step = SearchStep::Over;
                        SearchAction::Abort(error)
                    },
                }
            },
        }
    }

    /// Takes what the last piece of work came to, and says what is to be done next.
    pub fn advance(&mut self, target_root: &[u8], event: SearchEvent) -> (action: SearchAction)
        requires
            old(self).well_formed(),
            is_awaited_by_search(old(self).step, event),
        ensures
            search_advances(*old(self), target_root@, event, *final(self), action),
            final(self).well_formed(),
    {
        match event {
            SearchEvent::Checked(interrupted) => {
                if interrupted {
                    return self.interrupt("preflight");
                }
                self.step = SearchStep::BaselineBuild;
                SearchAction::Build(BuildPlan::baseline(target_root))
            },
            SearchEvent::Built(built, interrupted) => {
                if self.step == SearchStep::BaselineBuild {
                    if interrupted {
                        self.interrupt("baseline_build")
                    } else {
                        self.take_baseline(target_root, built)
                    }
                } else if self.step == SearchStep::PgoBuild {
                    if interrupted {
                        self.interrupt("pgo_build")
                    } else {
                        self.take_pgo_build(built)
                    }
                } else if interrupted {
                    self.interrupt("static_builds")
                } else {
                    self.take_static(target_root, built)
                }
            },
            SearchEvent::Screened(screened, dispersion) => {
                if self.step == SearchStep::BaselineScreen {
                    self.take_baseline_screening(screened, dispersion.as_str())
                } else if self.step == SearchStep::StaticScreen {
                    self.take_static_screening(screened)
                } else {
                    self.take_pgo_screening(screened)
                }
            },
            SearchEvent::Trained(outcome, interrupted) => self.take_training(
                outcome,
                interrupted,
            ),
            SearchEvent::Persisted(persisted) => {
                let message = match persisted {
                    Ok(_) => self.message.clone(),
                    Err(error) => text3(
                        self.message.as_str(),
                        " Interrupted state persistence also failed: ",
                        error.as_str(),
                    ),
                };
                self.step = SearchStep::Over;
                SearchAction::Fail(message)
            },
        }
    }
}

/// A PGO candidate is only screened once its observed compiler inputs matched those of its
/// training.
pub proof fn law_pgo_is_screened_only_after_parity(
    before: Search,
    target_root: Seq<u8>,
    event: SearchEvent,
    now: Search,
    action: SearchAction,
)
    requires
        search_advances(before, target_root, event, now, action),
        now.step == SearchStep::PgoScreen,
    ensures
        before.step == SearchStep::PgoBuild,
        now.run@.pgo_parity is Some,
        now.run@.pgo_parity->0@.matched,
        event matches SearchEvent::Built(Ok(build), false) && now.run@.pgo_parity->0@
            == training_decision(
            optional_inputs(before.reference_inputs),
            optional_inputs(before.instrumentation_inputs),
            inputs_of_build(build),
        ),
{
    reveal(pgo_decision);
}

/// A search never selects the baseline, and only selects a strategy of which it holds a stable
/// measurement; no measured candidate is faster.
pub proof fn law_selections_are_measured(
    settled: ManifestView,
    valid: Seq<(Strategy, u64)>,
    now: Search,
    action: SearchAction,
)
    requires
        selects(settled, valid, now, action),
        action matches SearchAction::Select(Some(_)),
    ensures
        action->Select_0->Some_0 != Strategy::Baseline,
        exists|i: int|
            0 <= i < now.valid@.len() && (#[trigger] now.valid@[i]).0 == action->Select_0->Some_0,
        now.run@.selected_candidate == action->Select_0,
        is_lowest(competing(now.valid@), action->Select_0->Some_0),
{
    law_the_baseline_is_never_selected(now.valid@, action->Select_0->Some_0);
}

/// Whether a search goes on from `before`, through an event that it waits for.
#[verifier::opaque]
pub open spec fn searches_through(
    before: Search,
    target_root: Seq<u8>,
    event: SearchEvent,
    now: Search,
    action: SearchAction,
) -> bool {
    search_advances(before, target_root, event, now, action)
}

/// Whether a search went through these states: each event takes one to the next, and asks for an
/// action.
pub open spec fn is_search_run(
    states: Seq<Search>,
    target_root: Seq<u8>,
    events: Seq<SearchEvent>,
    actions: Seq<SearchAction>,
) -> bool {
    &&& states.len() == events.len() + 1
    &&& actions.len() == events.len()
    &&& forall|i: int|
        0 <= i < events.len() ==> searches_through(
            states[i],
            target_root,
            #[trigger] events[i],
            states[i + 1],
            actions[i],
        )
}

/// The strategy whose executable a search waits to be screened.
pub open spec fn screened_strategy(search: Search) -> Strategy {
    match search.step {
        SearchStep::StaticScreen => search.artifacts@[search.place as int].0,
        SearchStep::PgoScreen => Strategy::Pgo,
        _ => Strategy::Baseline,
    }
}

/// Whether an event is the stable screening of what a search waited for, with this result.
pub open spec fn is_stable_screening(
    search: Search,
    event: SearchEvent,
    entry: (Strategy, u64),
) -> bool {
    &&& event matches SearchEvent::Screened(Ok(measurement), _)
    &&& measurement.outcome == MeasurementOutcome::Stable
    &&& entry == (screened_strategy(search), measurement.median_duration_ns)
}

/// Whether one of the first `count` events is the stable screening of a strategy with this
/// median.
pub open spec fn was_screened(
    states: Seq<Search>,
    events: Seq<SearchEvent>,
    count: int,
    entry: (Strategy, u64),
) -> bool {
    exists|i: int| 0 <= i < count && is_stable_screening(states[i], #[trigger] events[i], entry)
}

/// Whether a search is neither over nor interrupted.
pub open spec fn is_searching(search: Search) -> bool {
    search.step != SearchStep::Over && search.step != SearchStep::Interrupting
}

/// Whether what a search holds valid was held valid before, or was screened just now.
pub open spec fn holds_what_was_screened(before: Search, event: SearchEvent, now: Search) -> bool {
    forall|j: int|
        0 <= j < now.valid@.len() ==> {
            ||| before.valid@.contains(#[trigger] now.valid@[j])
            ||| is_stable_screening(before, event, now.valid@[j])
        }
}

proof fn lemma_holds_same(before: Search, event: SearchEvent, now: Search)
    requires
        now.valid@ == before.valid@,
    ensures
        holds_what_was_screened(before, event, now),
{
    assert forall|j: int| 0 <= j < now.valid@.len() implies before.valid@.contains(
        #[trigger] now.valid@[j],
    ) by {
        assert(before.valid@[j] == now.valid@[j]);
    }
}

proof fn lemma_holds_measurement(
    before: Search,
    measurement: ScreeningResult,
    dispersion: String,
    now: Search,
)
    requires
        now.valid@ == with_measurement(before.valid@, screened_strategy(before), measurement),
    ensures
        holds_what_was_screened(
            before,
            SearchEvent::Screened(Ok(measurement), dispersion),
            now,
        ),
{
    assert forall|j: int| 0 <= j < now.valid@.len() implies {
        ||| before.valid@.contains(#[trigger] now.valid@[j])
        ||| is_stable_screening(
            before,
            SearchEvent::Screened(Ok(measurement), dispersion),
            now.valid@[j],
        )
    } by {
        if j < before.valid@.len() {
            assert(before.valid@[j] == now.valid@[j]);
        }
    }
}

proof fn lemma_screenings_hold_what_was_screened(
    before: Search,
    target_root: Seq<u8>,
    screened: Result<ScreeningResult, WorkloadFailure>,
    dispersion: String,
    now: Search,
    action: SearchAction,
)
    requires
        search_advances(
            before,
            target_root,
            SearchEvent::Screened(screened, dispersion),
            now,
            action,
        ),
        is_searching(now) || action is Select,
    ensures
        holds_what_was_screened(before, SearchEvent::Screened(screened, dispersion), now),
{
    match screened {
        Err(_) => {
            lemma_holds_same(before, SearchEvent::Screened(screened, dispersion), now);
        },
        Ok(measurement) => {
            if before.step == SearchStep::BaselineScreen {
                assert(now.valid@ == seq![(Strategy::Baseline, measurement.median_duration_ns)]);
            } else {
                lemma_holds_measurement(before, measurement, dispersion, now);
            }
        },
    }
}

proof fn lemma_steps_hold_what_was_screened(
    before: Search,
    target_root: Seq<u8>,
    event: SearchEvent,
    now: Search,
    action: SearchAction,
)
    requires
        searches_through(before, target_root, event, now, action),
        is_searching(now) || action is Select,
    ensures
        is_searching(before),
        holds_what_was_screened(before, event, now),
{
    reveal(searches_through);
    match event {
        SearchEvent::Screened(screened, dispersion) => {
            lemma_screenings_hold_what_was_screened(
                before,
                target_root,
                screened,
                dispersion,
                now,
                action,
            );
        },
        _ => {
            lemma_holds_same(before, event, now);
        },
    }
}

proof fn lemma_held_was_screened(
    states: Seq<Search>,
    target_root: Seq<u8>,
    events: Seq<SearchEvent>,
    actions: Seq<SearchAction>,
    count: int,
    entry: (Strategy, u64),
)
    requires
        is_search_run(states, target_root, events, actions),
        states[0].valid@.len() == 0,
        0 <= count <= events.len(),
        is_searching(states[count]) || (count > 0 && actions[count - 1] is Select),
        states[count].valid@.contains(entry),
    ensures
        was_screened(states, events, count, entry),
    decreases count,
{
    if count > 0 {
        let before = states[count - 1];
        let event = events[count - 1];
        let now = states[count];
        lemma_steps_hold_what_was_screened(before, target_root, event, now, actions[count - 1]);
        let j = choose|j: int| 0 <= j < now.valid@.len() && now.valid@[j] == entry;
        assert(now.valid@[j] == entry);
        if before.valid@.contains(entry) {
            lemma_held_was_screened(states, target_root, events, actions, count - 1, entry);
            let i = choose|i: int|
                0 <= i < count - 1 && is_stable_screening(states[i], #[trigger] events[i], entry);
            assert(is_stable_screening(states[i], events[i], entry));
        } else {
            assert(is_stable_screening(states[count - 1], events[count - 1], entry));
        }
    }
}

proof fn lemma_training_selects(
    before: Search,
    outcome: PgoTrainingOutcome,
    interrupted: bool,
    now: Search,
    action: SearchAction,
) -> (settled: ManifestView)
    requires
        takes_training(before, outcome, interrupted, now, action),
        action is Select,
    ensures
        selects(settled, now.valid@, now, action),
{
    match outcome {
        PgoTrainingOutcome::Rejected(record) => then(
            then(before.run@, Transition::PgoTrained(record)),
            Transition::PgoSkipped,
        ),
        _ => before.run@,
    }
}

proof fn lemma_pgo_build_selects(
    before: Search,
    built: Result<BuildRecord, BuildFailure>,
    interrupted: bool,
    now: Search,
    action: SearchAction,
) -> (settled: ManifestView)
    requires
        takes_pgo_build(before, built, interrupted, now, action),
        action is Select,
    ensures
        selects(settled, now.valid@, now, action),
{
    match built {
        Err(failure) => then(before.run@, Transition::PgoRejected(failure)),
        Ok(build) => then(
            before.run@,
            Transition::PgoMismatched(build, now.run@.pgo_parity->0),
        ),
    }
}

proof fn lemma_pgo_screening_selects(
    before: Search,
    screened: Result<ScreeningResult, WorkloadFailure>,
    now: Search,
    action: SearchAction,
) -> (settled: ManifestView)
    requires
        takes_pgo_screening(before, screened, now, action),
        action is Select,
    ensures
        selects(settled, now.valid@, now, action),
{
    match screened {
        Err(failure) => then(
            before.run@,
            Transition::StrategyRejected(Strategy::Pgo, failure@),
        ),
        Ok(measurement) => then(
            before.run@,
            Transition::StrategyScreened(Strategy::Pgo, measurement),
        ),
    }
}

proof fn lemma_selection_is_held(
    before: Search,
    target_root: Seq<u8>,
    event: SearchEvent,
    now: Search,
    action: SearchAction,
) -> (settled: ManifestView)
    requires
        searches_through(before, target_root, event, now, action),
        action is Select,
    ensures
        selects(settled, now.valid@, now, action),
{
    reveal(searches_through);
    match (before.step, event) {
        (SearchStep::Training, SearchEvent::Trained(outcome, interrupted)) => {
            lemma_training_selects(before, outcome, interrupted, now, action)
        },
        (SearchStep::PgoBuild, SearchEvent::Built(built, interrupted)) => {
            lemma_pgo_build_selects(before, built, interrupted, now, action)
        },
        (SearchStep::PgoScreen, SearchEvent::Screened(screened, _)) => {
            lemma_pgo_screening_selects(before, screened, now, action)
        },
        _ => before.run@,
    }
}

/// Whatever happens on the way, a search only selects a candidate whose executable it had
/// screened as stable, no stable candidate was faster, and the run then awaits its confirmation.
pub proof fn law_selected_candidates_were_screened(
    states: Seq<Search>,
    target_root: Seq<u8>,
    events: Seq<SearchEvent>,
    actions: Seq<SearchAction>,
    place: int,
)
    requires
        is_search_run(states, target_root, events, actions),
        states[0].valid@.len() == 0,
        0 <= place < events.len(),
        actions[place] is Select,
    ensures
        states[place + 1].run@.confirmation == Some(
            pending_confirmation(actions[place]->Select_0),
        ),
        states[place + 1].run@.selected_candidate == actions[place]->Select_0,
        actions[place] matches SearchAction::Select(Some(strategy)) ==> {
            &&& strategy != Strategy::Baseline
            &&& is_lowest(competing(states[place + 1].valid@), strategy)
            &&& exists|i: int|
                {
                    &&& 0 <= i < states[place + 1].valid@.len()
                    &&& (#[trigger] states[place + 1].valid@[i]).0 == strategy
                    &&& was_screened(states, events, place + 1, states[place + 1].valid@[i])
                }
        },
{
    let now = states[place + 1];
    let action = actions[place];
    let settled = lemma_selection_is_held(
        states[place],
        target_root,
        events[place],
        now,
        action,
    );
    if let SearchAction::Select(Some(strategy)) = action {
        law_selections_are_measured(settled, now.valid@, now, action);
        let i = choose|i: int| 0 <= i < now.valid@.len() && (#[trigger] now.valid@[i]).0 == strategy;
        let entry = now.valid@[i];
        assert(now.valid@.contains(entry));
        lemma_held_was_screened(states, target_root, events, actions, place + 1, entry);
    }
}

/// The baseline is built first, then thin LTO, then fat LTO, each from its own configuration and
/// into its own directory; every executable that was built is kept for its screening, and a
/// candidate that did not build stops nothing. Then the baseline is screened.
pub proof fn law_every_static_strategy_is_built(
    before: Search,
    target_root: Seq<u8>,
    event: SearchEvent,
    now: Search,
    action: SearchAction,
)
    requires
        search_advances(before, target_root, event, now, action),
        before.step == SearchStep::Preflight || before.step == SearchStep::BaselineBuild
            || before.step == SearchStep::ThinBuild || before.step == SearchStep::FatBuild,
        event != SearchEvent::Checked(true),
        event matches SearchEvent::Built(_, interrupted) ==> !interrupted,
        before.step == SearchStep::BaselineBuild ==> event matches SearchEvent::Built(Ok(_), _),
    ensures
        before.step == SearchStep::Preflight ==> now.step == SearchStep::BaselineBuild && (
        action matches SearchAction::Build(plan) && builds_first(
            plan,
            Strategy::Baseline,
            target_root,
        )),
        before.step == SearchStep::BaselineBuild ==> {
            &&& now.step == SearchStep::ThinBuild
            &&& now.baseline_path@ == event->Built_0->Ok_0.executable_path@
            &&& action matches SearchAction::Build(plan) && builds_first(
                plan,
                Strategy::ThinLto,
                target_root,
            )
        },
        before.step == SearchStep::ThinBuild ==> {
            &&& now.step == SearchStep::FatBuild
            &&& keeps_artifact(before, Strategy::ThinLto, event->Built_0, now)
            &&& action matches SearchAction::Build(plan) && builds_first(
                plan,
                Strategy::FatLtoCgu1,
                target_root,
            )
        },
        before.step == SearchStep::FatBuild ==> {
            &&& now.step == SearchStep::BaselineScreen
            &&& keeps_artifact(before, Strategy::FatLtoCgu1, event->Built_0, now)
            &&& action matches SearchAction::Screen(path) && path@ == before.baseline_path@
        },
{
    if before.step == SearchStep::ThinBuild || before.step == SearchStep::FatBuild {
        let strategy = if before.step == SearchStep::ThinBuild {
            Strategy::ThinLto
        } else {
            Strategy::FatLtoCgu1
        };
        lemma_artifact_views(before.artifacts@);
        lemma_artifact_views(now.artifacts@);
        let built = event->Built_0;
        assert(artifact_views(now.artifacts@) == with_artifact(before.artifacts@, strategy, built));
        assert forall|i: int| 0 <= i < before.artifacts@.len() implies (
        #[trigger] now.artifacts@[i]).0 == before.artifacts@[i].0 && now.artifacts@[i].1@
            == before.artifacts@[i].1@ by {
            assert(artifact_views(now.artifacts@)[i] == artifact_views(before.artifacts@)[i]);
        }
        if built is Ok {
            let last = before.artifacts@.len() as int;
            assert(artifact_views(now.artifacts@)[last] == (
                strategy,
                built->Ok_0.executable_path@,
            ));
        }
    }
}

proof fn lemma_artifact_views(artifacts: Seq<(Strategy, Vec<u8>)>)
    ensures
        artifact_views(artifacts).len() == artifacts.len(),
        forall|i: int|
            0 <= i < artifacts.len() ==> #[trigger] artifact_views(artifacts)[i] == (
                artifacts[i].0,
                artifacts[i].1@,
            ),
{
}

/// Whether a plan builds a strategy from its own configuration, into its own directory.
pub open spec fn builds_first(plan: BuildPlan, strategy: Strategy, target_root: Seq<u8>) -> bool {
    &&& plan.strategy == strategy
    &&& plan.target_directory@ == join_path(target_root, encode_utf8(identity_label(strategy)))
    &&& texts(plan.cargo_config_overrides@) == overrides_of(strategy)
    &&& plan.interposition is None
}

/// Whether the executable of a strategy, if it was built, stands behind those kept before.
pub open spec fn keeps_artifact(
    before: Search,
    strategy: Strategy,
    built: Result<BuildRecord, BuildFailure>,
    now: Search,
) -> bool {
    &&& now.artifacts@.len() == before.artifacts@.len() + if built is Ok {
        1int
    } else {
        0int
    }
    &&& forall|i: int|
        0 <= i < before.artifacts@.len() ==> (#[trigger] now.artifacts@[i]).0
            == before.artifacts@[i].0 && now.artifacts@[i].1@ == before.artifacts@[i].1@
    &&& built matches Ok(build) ==> {
        &&& now.artifacts@.last().0 == strategy
        &&& now.artifacts@.last().1@ == build.executable_path@
    }
}

/// Every executable that was built is screened, one after the other, whether or not the one before
/// passed; then PGO is trained on a strategy whose stable median no other stable one undercuts,
/// the baseline among them.
pub proof fn law_every_artifact_is_screened(
    before: Search,
    target_root: Seq<u8>,
    event: SearchEvent,
    now: Search,
    action: SearchAction,
)
    requires
        search_advances(before, target_root, event, now, action),
        before.step == SearchStep::StaticScreen,
        before.place < before.artifacts@.len(),
        event matches SearchEvent::Screened(Err(failure), _) ==> failure.kind
            != WorkloadFailureKind::Interrupted,
        before.valid@.len() > 0,
        !(action is Abort),
    ensures
        now.artifacts == before.artifacts,
        before.place + 1 < before.artifacts@.len() ==> {
            &&& now.step == SearchStep::StaticScreen
            &&& now.place == before.place + 1
            &&& action matches SearchAction::Screen(path) && path@
                == before.artifacts@[before.place + 1].1@
        },
        before.place + 1 == before.artifacts@.len() ==> {
            &&& now.step == SearchStep::Training
            &&& action matches SearchAction::Train(base) && exists|i: int|
                {
                    &&& 0 <= i < now.valid@.len()
                    &&& (#[trigger] now.valid@[i]).0 == base
                    &&& forall|j: int|
                        0 <= j < now.valid@.len() ==> now.valid@[i].1 <= (
                        #[trigger] now.valid@[j]).1
                }
        },
{
    if before.place + 1 == before.artifacts@.len() {
        law_the_lowest_median_is_no_greater(now.valid@, action->Train_0);
    }
}

/// A stable screening competes with its median under the strategy that was screened; one that is
/// unstable or failed does not compete, and takes nothing from the others.
pub proof fn law_stable_screenings_compete(
    before: Search,
    target_root: Seq<u8>,
    event: SearchEvent,
    now: Search,
    action: SearchAction,
)
    requires
        search_advances(before, target_root, event, now, action),
        before.step == SearchStep::BaselineScreen || before.step == SearchStep::StaticScreen
            || before.step == SearchStep::PgoScreen,
        before.step == SearchStep::StaticScreen ==> before.place < before.artifacts@.len(),
        !(action is Abort),
        !(action is Fail),
    ensures
        ({
            let strategy = if before.step == SearchStep::BaselineScreen {
                Strategy::Baseline
            } else if before.step == SearchStep::PgoScreen {
                Strategy::Pgo
            } else {
                before.artifacts@[before.place as int].0
            };
            let earlier = if before.step == SearchStep::BaselineScreen {
                Seq::<(Strategy, u64)>::empty()
            } else {
                before.valid@
            };
            match event {
                SearchEvent::Screened(Ok(measurement), _) => if measurement.outcome
                    == MeasurementOutcome::Stable {
                    now.valid@ == earlier.push((strategy, measurement.median_duration_ns))
                } else {
                    now.valid@ == earlier
                },
                _ => now.valid@ == earlier,
            }
        }),
        before.step == SearchStep::BaselineScreen ==> {
            &&& event matches SearchEvent::Screened(Ok(measurement), _) && measurement.outcome
                == MeasurementOutcome::Stable
            &&& now.artifacts == before.artifacts
            &&& before.artifacts@.len() > 0 ==> now.step == SearchStep::StaticScreen && now.place
                == 0 && (action matches SearchAction::Screen(path) && path@
                == before.artifacts@[0].1@)
        },
{
    if before.step == SearchStep::BaselineScreen {
        let measurement = event->Screened_0->Ok_0;
        assert(seq![(Strategy::Baseline, measurement.median_duration_ns)] =~= Seq::<
            (Strategy, u64),
        >::empty().push((Strategy::Baseline, measurement.median_duration_ns)));
    }
}

/// Whether an event leaves a search without a stable baseline.
pub open spec fn lacks_stable_baseline(step: SearchStep, event: SearchEvent) -> bool {
    match (step, event) {
        (SearchStep::BaselineBuild, SearchEvent::Built(built, interrupted)) => built is Err
            && !interrupted,
        (SearchStep::BaselineScreen, SearchEvent::Screened(Err(_), _)) => true,
        (SearchStep::BaselineScreen, SearchEvent::Screened(Ok(measurement), _)) => {
            measurement.outcome != MeasurementOutcome::Stable
        },
        _ => false,
    }
}

/// A search without a stable baseline ends at once: a failed build or workload, and an unstable
/// measurement, fail the run.
pub proof fn law_searches_need_a_stable_baseline(
    before: Search,
    target_root: Seq<u8>,
    event: SearchEvent,
    now: Search,
    action: SearchAction,
)
    requires
        search_advances(before, target_root, event, now, action),
        lacks_stable_baseline(before.step, event),
    ensures
        now.step == SearchStep::Over,
        action is Fail,
{
}

/// A trained PGO candidate is built from the plan of its training, and screened if the compiler
/// inputs of its build are those of both its training stages; in every other case the search ends
/// with the selection among the others.
pub proof fn law_trained_candidates_are_built_and_screened(
    before: Search,
    target_root: Seq<u8>,
    event: SearchEvent,
    now: Search,
    action: SearchAction,
)
    requires
        search_advances(before, target_root, event, now, action),
        before.step == SearchStep::Training || before.step == SearchStep::PgoBuild,
        event matches SearchEvent::Trained(_, interrupted) ==> !interrupted,
        event matches SearchEvent::Built(_, interrupted) ==> !interrupted,
        !(event matches SearchEvent::Trained(PgoTrainingOutcome::Interrupted(_, _), _)),
    ensures
        match event {
            SearchEvent::Trained(PgoTrainingOutcome::Trained(success), _) => {
                &&& now.step == SearchStep::PgoBuild
                &&& action == SearchAction::Build(success.optimized_plan)
                &&& now.reference_inputs == success.reference_inputs
                &&& now.instrumentation_inputs == success.instrumentation_inputs
                &&& now.valid@ == before.valid@
            },
            SearchEvent::Trained(PgoTrainingOutcome::Rejected(_), _) => action is Select
                && now.valid@ == before.valid@,
            SearchEvent::Built(Err(_), _) => action is Select && now.valid@ == before.valid@,
            SearchEvent::Built(Ok(build), _) => {
                let matched = training_decision(
                    optional_inputs(before.reference_inputs),
                    optional_inputs(before.instrumentation_inputs),
                    inputs_of_build(build),
                ).matched;
                &&& matched ==> now.step == SearchStep::PgoScreen && (
                action matches SearchAction::Screen(path) && path@ == build.executable_path@)
                    && optional_inputs(now.accepted_inputs) == inputs_of_build(build)
                &&& !matched ==> action is Select
                &&& now.valid@ == before.valid@
            },
            _ => true,
        },
{
    reveal(pgo_decision);
}

/// A search that ends with a selection selects the candidate with the lowest stable median; it
/// selects none exactly where no candidate but the baseline was stable.
pub proof fn law_the_fastest_stable_candidate_wins(
    settled: ManifestView,
    valid: Seq<(Strategy, u64)>,
    now: Search,
    action: SearchAction,
)
    requires
        selects(settled, valid, now, action),
    ensures
        action matches SearchAction::Select(selected) && match selected {
            Some(strategy) => exists|i: int|
                {
                    &&& 0 <= i < now.valid@.len()
                    &&& (#[trigger] now.valid@[i]).0 == strategy
                    &&& strategy != Strategy::Baseline
                    &&& forall|j: int|
                        0 <= j < now.valid@.len() && (#[trigger] now.valid@[j]).0
                            != Strategy::Baseline ==> now.valid@[i].1 <= now.valid@[j].1
                },
            None => forall|i: int|
                0 <= i < now.valid@.len() ==> (#[trigger] now.valid@[i]).0 == Strategy::Baseline,
        },
{
    match action->Select_0 {
        Some(strategy) => {
            law_the_fastest_candidate_is_selected(now.valid@, strategy);
        },
        None => {
            law_the_fastest_candidate_is_selected(now.valid@, Strategy::Baseline);
        },
    }
}

} // verus!
