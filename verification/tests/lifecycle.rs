use temper::anchored::AnchoredError;
use temper::cargo::{planned_invocation, BuildFailure, BuildRecord, TargetSelection};
use temper::confirm::{
    pre_run_failure_message, records_first, run_failure_message, ConfirmAction, ConfirmEvent,
    ConfirmStep, Confirming,
};
use temper::measurement::{
    ConfidenceInterval, ConfirmationResult, MeasurementOutcome, ScreeningResult,
};
use temper::parity::{CompilerParityRecord, StageInputs, UnitInputs};
use temper::interposition::{InterpositionRecord, ShimStage, NORMALIZATION_VERSION, PROTOCOL};
use temper::phases::PgoParityRecord;
use temper::preflight::{PreflightRecord, SourceReproducibility};
use temper::promotion::{PromotionError, PromotionErrorKind, PromotionRecord};
use temper::run::{
    check_run_directory, decision_label, ensure_directory, request_record, run_id,
    workload_rejection_reason, ConfirmationOutcome, DirectoryState, FinalDecision, ReportNumbers,
    RequestRecord, RunHead, RunManifest, RunStatus, COMPATIBILITY, EMERGENCY_MESSAGE,
    HUMAN_REPORT_LINE_LIMIT, SCHEMA_VERSION,
};
use temper::search::{Search, SearchAction, SearchEvent, SearchStep};
use temper::strategy::{BuildPlan, Strategy};
use temper::training::{PgoFailureStage, PgoTrainingOutcome, TrainingState};
use temper::workload::{
    ConfirmationFailure, ConfirmationStep, WorkloadFailure, WorkloadFailureKind,
};

const TARGET_ROOT: &[u8] = b"/run/target";
const DIRECTORY: &[u8] = b"/run";

fn selection() -> TargetSelection {
    TargetSelection {
        package_id: "app 0.1.0".to_owned(),
        package_name: "app".to_owned(),
        binary_name: "app".to_owned(),
        workspace_root: b"/w".to_vec(),
    }
}

fn new_run() -> RunManifest {
    RunManifest::new(RunHead::new(
        "0.0.3".to_owned(),
        run_id(1, 2, 3),
        SourceReproducibility::Clean,
        RequestRecord {
            minimum_improvement_percent: 2.0_f64.to_bits(),
            timeout_seconds: 300,
            workload_executable: "/bin/true".to_owned(),
            workload_arguments: vec![],
        },
        PreflightRecord {
            host_triple: "x86_64-unknown-linux-gnu".to_owned(),
            kernel: "Linux 6".to_owned(),
            cpu_model: "Example".to_owned(),
            logical_core_count: 4,
            cargo_version: "cargo 1.97.1".to_owned(),
            rustc_version: "rustc 1.97.1".to_owned(),
            manifest_path: b"/w/Cargo.toml".to_vec(),
            lockfile_path: b"/w/Cargo.lock".to_vec(),
            lockfile_sha256: "lock".to_owned(),
        },
        selection(),
    ))
}

fn build(plan: &BuildPlan, sha256: &str) -> BuildRecord {
    let mut executable_path = plan.target_directory.clone();
    executable_path.extend_from_slice(b"/release/app");
    BuildRecord {
        invocation: planned_invocation(&selection(), plan),
        executable_path,
        sha256: sha256.to_owned(),
        size_bytes: 10,
        build_duration_ms: 5,
        bounded_diagnostics: String::new(),
        diagnostics_truncated: false,
        compiler_evidence: None,
    }
}

fn build_failure(plan: &BuildPlan) -> BuildFailure {
    BuildFailure::new(planned_invocation(&selection(), plan), "the build failed".to_owned())
}

fn screened(median: u64) -> Result<ScreeningResult, WorkloadFailure> {
    Ok(ScreeningResult {
        sample_durations_ns: vec![median; 7],
        median_duration_ns: median,
        relative_mad: 0,
        outcome: MeasurementOutcome::Stable,
    })
}

fn workload_failure(kind: WorkloadFailureKind) -> WorkloadFailure {
    WorkloadFailure::new(kind, "the workload failed".to_owned())
}

fn rejected_training() -> PgoTrainingOutcome {
    PgoTrainingOutcome::Rejected(TrainingState::new(Strategy::ThinLto).reject(
        PgoFailureStage::Prerequisites,
        "unproven_compiler_override",
        "no".to_owned(),
        None,
    ))
}

/// Runs a search up to its selection; the static candidates take `thin` and `fat` nanoseconds.
fn search(thin: u64, fat: u64) -> (Search, Option<Strategy>) {
    let mut search = Search::start(new_run());
    let mut event = SearchEvent::Checked(false);
    let mut screenings = vec![1000_u64, thin, fat].into_iter();
    loop {
        let action = search.advance(TARGET_ROOT, event);
        event = match action {
            SearchAction::Build(plan) => SearchEvent::Built(Ok(build(&plan, "built")), false),
            SearchAction::Screen(_) => SearchEvent::Screened(
                screened(screenings.next().expect("three screenings")),
                "0.00".to_owned(),
            ),
            SearchAction::Train(_) => SearchEvent::Trained(rejected_training(), false),
            SearchAction::Select(candidate) => return (search, candidate),
            other => panic!("the search goes on: {other:?}"),
        };
    }
}

#[test]
fn the_fastest_measured_candidate_is_selected() {
    let (found, candidate) = search(900, 800);
    assert_eq!(candidate, Some(Strategy::FatLtoCgu1));
    assert_eq!(found.step, SearchStep::Over);
    assert_eq!(found.run.selected_candidate, Some(Strategy::FatLtoCgu1));
    assert_eq!(found.run.status, RunStatus::Confirmation);
    assert_eq!(found.run.strategies.len(), 3);
    assert_eq!(found.run.strategies[2].identity, Strategy::Pgo);
}

#[test]
fn a_failed_baseline_build_fails_the_run() {
    let mut search = Search::start(new_run());
    let plan = match search.advance(TARGET_ROOT, SearchEvent::Checked(false)) {
        SearchAction::Build(plan) => plan,
        other => panic!("the baseline is built first: {other:?}"),
    };
    let action = search.advance(TARGET_ROOT, SearchEvent::Built(Err(build_failure(&plan)), false));
    assert!(matches!(action, SearchAction::Fail(message) if message == "the build failed"));
    assert_eq!(search.run.status, RunStatus::Failed);
    assert_eq!(search.run.final_decision, FinalDecision::Failed);
}

#[test]
fn interrupted_searches_persist_before_they_fail() {
    let mut search = Search::start(new_run());
    let action = search.advance(TARGET_ROOT, SearchEvent::Checked(true));
    assert!(matches!(action, SearchAction::Persist));
    assert_eq!(search.run.status, RunStatus::Interrupted);
    let action =
        search.advance(TARGET_ROOT, SearchEvent::Persisted(Err("no space".to_owned())));
    match action {
        SearchAction::Fail(message) => assert_eq!(
            message,
            "Run interrupted by SIGINT during preflight; no artifact was promoted. Interrupted \
             state persistence also failed: no space"
        ),
        other => panic!("an interrupted run fails: {other:?}"),
    }
}

fn measurement(outcome: MeasurementOutcome) -> ConfirmationResult {
    let bits = 1.0_f64.to_bits();
    ConfirmationResult {
        baseline_durations_ns: vec![10; 20],
        candidate_durations_ns: vec![9; 20],
        median_ratio: bits,
        baseline_relative_mad: 0,
        candidate_relative_mad: 0,
        confidence_interval_95: ConfidenceInterval { lower: bits, upper: bits },
        threshold_ratio: bits,
        outcome,
    }
}

fn promoted(strategy: Strategy, sha256: &str) -> PromotionRecord {
    PromotionRecord {
        source_strategy: strategy,
        source_path: b"/run/target/confirmation/fat-lto-cgu1/release/app".to_vec(),
        source_sha256: sha256.to_owned(),
        promoted_path: b"/run/best/artifact".to_vec(),
        promoted_sha256: sha256.to_owned(),
        size_bytes: 10,
        permissions_mode: 0o755,
    }
}

/// What the outside work of a confirmation comes to.
struct World {
    measured: Result<ConfirmationResult, ConfirmationFailure>,
    changed: bool,
    reserved: Result<(), String>,
    published: Result<(), AnchoredError>,
    promotion: Result<(), PromotionError>,
    discarded: bool,
    persisted: bool,
}

impl World {
    fn new(outcome: MeasurementOutcome) -> World {
        World {
            measured: Ok(measurement(outcome)),
            changed: false,
            reserved: Ok(()),
            published: Ok(()),
            promotion: Ok(()),
            discarded: false,
            persisted: false,
        }
    }
}

fn confirm(world: &mut World) -> (Confirming, ConfirmAction) {
    let (search, _) = search(900, 800);
    let mut confirming = Confirming::start(search.run, search.accepted_inputs);
    let mut event = ConfirmEvent::Planned(Ok(None));
    loop {
        let action = confirming.advance(DIRECTORY, TARGET_ROOT, event);
        event = match action {
            ConfirmAction::Build(plan) => {
                let sha256 = if plan.strategy == Strategy::Baseline { "base" } else { "candidate" };
                ConfirmEvent::Built(Ok(build(&plan, sha256)), false)
            }
            ConfirmAction::Anchor(_, _) => ConfirmEvent::Checked(Ok(())),
            ConfirmAction::Measure => {
                let measured = std::mem::replace(
                    &mut world.measured,
                    Ok(measurement(MeasurementOutcome::Stable)),
                );
                ConfirmEvent::Measured(measured)
            }
            ConfirmAction::Verify => ConfirmEvent::Checked(if world.changed {
                Err(PromotionError {
                    kind: PromotionErrorKind::ChecksumMismatch,
                    message: "changed".to_owned(),
                })
            } else {
                Ok(())
            }),
            ConfirmAction::Reserve => ConfirmEvent::Did(std::mem::replace(
                &mut world.reserved,
                Ok(()),
            )),
            ConfirmAction::Promote(strategy) => {
                let outcome = std::mem::replace(&mut world.promotion, Ok(()));
                ConfirmEvent::Promoted(outcome.map(|_| promoted(strategy, "candidate")))
            }
            ConfirmAction::Publish(latest) => {
                assert_eq!(latest.artifact_sha256, "candidate");
                assert_eq!(latest.run_json, b"/run/run.json".to_vec());
                ConfirmEvent::Published(std::mem::replace(&mut world.published, Ok(())))
            }
            ConfirmAction::Discard => {
                world.discarded = true;
                ConfirmEvent::Did(Ok(()))
            }
            ConfirmAction::Persist => {
                world.persisted = true;
                ConfirmEvent::Did(Ok(()))
            }
            ConfirmAction::ReleaseReserve
            | ConfirmAction::ReleaseEmergency
            | ConfirmAction::ActivateEmergency => ConfirmEvent::Did(Ok(())),
            done => return (confirming, done),
        };
    }
}

#[test]
fn an_accepted_candidate_is_promoted_and_published() {
    let mut world = World::new(MeasurementOutcome::Accepted);
    let (confirming, action) = confirm(&mut world);
    assert!(matches!(action, ConfirmAction::Report));
    assert_eq!(confirming.step, ConfirmStep::Over);
    assert_eq!(confirming.run.status, RunStatus::Confirmed);
    assert_eq!(confirming.run.final_decision, FinalDecision::Confirmed);
    assert!(confirming.run.promotion.is_some());
    assert!(!world.discarded);
}

#[test]
fn an_insufficient_improvement_promotes_nothing() {
    let mut world = World::new(MeasurementOutcome::InsufficientImprovement);
    let (confirming, action) = confirm(&mut world);
    assert!(matches!(action, ConfirmAction::Report));
    assert_eq!(confirming.run.status, RunStatus::NoImprovement);
    assert!(confirming.run.promotion.is_none());
}

#[test]
fn changed_executables_fail_the_confirmation() {
    let mut world = World::new(MeasurementOutcome::Accepted);
    world.changed = true;
    let (confirming, action) = confirm(&mut world);
    assert!(matches!(action, ConfirmAction::Fail(message) if message == "changed"));
    assert_eq!(confirming.run.status, RunStatus::Failed);
    assert!(confirming.run.promotion.is_none());
}

#[test]
fn a_failing_candidate_is_rejected_and_a_failing_baseline_fails() {
    let mut world = World::new(MeasurementOutcome::Accepted);
    world.measured = Err(ConfirmationFailure {
        step: ConfirmationStep::Candidate,
        failure: workload_failure(WorkloadFailureKind::NonzeroExit),
    });
    let (confirming, action) = confirm(&mut world);
    assert!(matches!(action, ConfirmAction::Report));
    assert_eq!(confirming.run.status, RunStatus::NoImprovement);
    let confirmation = confirming.run.confirmation.expect("confirmation");
    assert_eq!(confirmation.outcome, ConfirmationOutcome::Rejected);

    let mut world = World::new(MeasurementOutcome::Accepted);
    world.measured = Err(ConfirmationFailure {
        step: ConfirmationStep::Baseline,
        failure: workload_failure(WorkloadFailureKind::NonzeroExit),
    });
    let (confirming, action) = confirm(&mut world);
    assert!(matches!(action, ConfirmAction::Fail(_)));
    assert_eq!(confirming.run.status, RunStatus::Failed);
}

#[test]
fn unpublished_promotions_are_rolled_back() {
    let mut world = World::new(MeasurementOutcome::Accepted);
    world.published = Err(AnchoredError {
        message: "latest failed".to_owned(),
        committed: false,
        interrupted: false,
    });
    let (confirming, action) = confirm(&mut world);
    assert!(matches!(action, ConfirmAction::Fail(message) if message == "latest failed"));
    assert!(world.discarded);
    assert!(world.persisted);
    assert_eq!(confirming.run.final_decision, FinalDecision::Failed);
}

#[test]
fn committed_promotions_are_kept() {
    let mut world = World::new(MeasurementOutcome::Accepted);
    world.published = Err(AnchoredError {
        message: "sync failed".to_owned(),
        committed: true,
        interrupted: false,
    });
    let (confirming, action) = confirm(&mut world);
    assert!(matches!(action, ConfirmAction::Fail(message) if message == "sync failed"));
    assert!(!world.discarded);
    assert_eq!(confirming.run.final_decision, FinalDecision::Confirmed);
}

#[test]
fn failed_promotions_and_reservations_are_reported() {
    let mut world = World::new(MeasurementOutcome::Accepted);
    world.promotion = Err(PromotionError {
        kind: PromotionErrorKind::Interrupted,
        message: "interrupted".to_owned(),
    });
    let (confirming, action) = confirm(&mut world);
    assert!(matches!(action, ConfirmAction::Fail(_)));
    assert_eq!(confirming.run.final_decision, FinalDecision::Interrupted);
    assert!(!world.discarded);

    let mut world = World::new(MeasurementOutcome::Accepted);
    world.reserved = Err("no space".to_owned());
    let (_, action) = confirm(&mut world);
    assert!(matches!(action, ConfirmAction::Fail(message)
        if message == "Could not reserve space for an atomic promotion failure record: no space"));
}

fn observed(stage: ShimStage, argument: &str) -> StageInputs {
    StageInputs {
        stage,
        real_rustc: b"/rustc".to_vec(),
        real_rustc_version: "rustc 1.97.1".to_owned(),
        shim_sha256: "shim".to_owned(),
        capture_digest: "capture".to_owned(),
        record_count: 1,
        units: vec![UnitInputs {
            crate_name: "app".to_owned(),
            metadata: None,
            crate_types: vec!["bin".to_owned()],
            extra_filename: None,
            argument_digests: vec![argument.to_owned()],
            normalized_digest: argument.to_owned(),
        }],
    }
}

#[test]
fn a_pgo_rebuild_without_evidence_is_rejected() {
    let (search, _) = search(900, 800);
    let mut run = search.run;
    // The selected candidate is taken to be a PGO build with observed inputs.
    let plan = BuildPlan::candidate(Strategy::FatLtoCgu1, TARGET_ROOT);
    let mut rebuilt = build(&plan, "candidate");
    rebuilt.invocation.strategy = Strategy::Pgo;
    run.selected_candidate = Some(Strategy::FatLtoCgu1);
    let mut confirming = Confirming::start(run, Some(observed(ShimStage::Use, "a")));
    confirming.advance(DIRECTORY, TARGET_ROOT, ConfirmEvent::Planned(Ok(None)));
    let baseline = BuildPlan::baseline(TARGET_ROOT);
    confirming.advance(
        DIRECTORY,
        TARGET_ROOT,
        ConfirmEvent::Built(Ok(build(&baseline, "base")), false),
    );
    let action =
        confirming.advance(DIRECTORY, TARGET_ROOT, ConfirmEvent::Built(Ok(rebuilt), false));
    assert!(matches!(action, ConfirmAction::Report));
    assert_eq!(confirming.run.status, RunStatus::NoImprovement);
    let parity: Option<CompilerParityRecord> =
        confirming.run.confirmation.expect("confirmation").compiler_parity;
    assert!(!parity.expect("parity").matched);
}

#[test]
fn interrupted_confirmations_promote_nothing() {
    let (search, _) = search(900, 800);
    let mut confirming = Confirming::start(search.run, None);
    confirming.advance(DIRECTORY, TARGET_ROOT, ConfirmEvent::Planned(Ok(None)));
    let plan = BuildPlan::baseline(TARGET_ROOT);
    let action = confirming.advance(
        DIRECTORY,
        TARGET_ROOT,
        ConfirmEvent::Built(Ok(build(&plan, "base")), true),
    );
    assert!(matches!(action, ConfirmAction::Persist));
    let action = confirming.advance(DIRECTORY, TARGET_ROOT, ConfirmEvent::Did(Ok(())));
    assert!(matches!(action, ConfirmAction::Fail(message)
        if message == "Run interrupted by SIGINT during confirmation; no artifact was promoted."));
    assert_eq!(confirming.run.status, RunStatus::Interrupted);
}

#[test]
fn reports_stay_short() {
    let mut world = World::new(MeasurementOutcome::Accepted);
    let (confirming, _) = confirm(&mut world);
    let numbers = ReportNumbers {
        baseline_dispersion: "0.00".to_owned(),
        strategy_dispersions: vec!["0.00".to_owned(), "0.00".to_owned(), "0.00".to_owned()],
        ratio: "0.95".to_owned(),
        lower: "0.94".to_owned(),
        upper: "0.96".to_owned(),
        confirmation_baseline_dispersion: "0.00".to_owned(),
        confirmation_candidate_dispersion: "0.00".to_owned(),
    };
    let lines = confirming.run.human_report(&numbers).expect("report");
    assert!(lines.len() <= HUMAN_REPORT_LINE_LIMIT);
    assert!(lines.iter().any(|line| line.contains("confirmed")));
    assert!(lines.iter().all(|line| !line.contains('\n')));
}

#[test]
fn failure_messages_name_what_else_failed() {
    assert_eq!(run_failure_message("failed.", &Ok(())), "failed.");
    assert_eq!(
        run_failure_message("failed.", &Err("pipe".to_owned())),
        "failed. Final report emission also failed: pipe"
    );
    assert_eq!(
        pre_run_failure_message("failed.", true, &Err("pipe".to_owned())),
        "failed. Preflight JSON emission also failed: pipe"
    );
    assert_eq!(pre_run_failure_message("failed.", false, &Err("pipe".to_owned())), "failed.");
}

#[test]
fn runs_have_their_own_directory() {
    assert!(check_run_directory(b"/w/.temper/runs/1", b"/w").is_ok());
    assert!(check_run_directory(b"/elsewhere/1", b"/w").is_err());
    assert!(ensure_directory(b"/w/.temper", &DirectoryState::Directory).is_ok());
    assert!(ensure_directory(b"/w/.temper", &DirectoryState::Created(Ok(()))).is_ok());
    assert!(ensure_directory(b"/w/.temper", &DirectoryState::Symlink).is_err());
    assert!(ensure_directory(b"/w/.temper", &DirectoryState::NotDirectory).is_err());
    assert!(ensure_directory(b"/w", &DirectoryState::Unknown("io".to_owned())).is_err());
    assert_eq!(run_id(1, 2, 3), "1-2-3");
    let request =
        request_record(0, 300, &vec![b"/bin/true".to_vec(), b"x".to_vec()]).expect("request");
    assert_eq!(request.workload_arguments, ["x"]);
    assert!(request_record(0, 300, &vec![]).is_err());
}

#[test]
fn labels_name_every_decision() {
    assert_eq!(decision_label(FinalDecision::NoImprovement), "no_improvement");
    assert_eq!(decision_label(FinalDecision::Confirmed), "confirmed");
    assert_eq!(workload_rejection_reason(WorkloadFailureKind::Timeout), "timeout");
    assert_eq!(workload_rejection_reason(WorkloadFailureKind::NonzeroExit), "workload_failed");
    assert!(!PgoParityRecord::pending().matched);
}

#[test]
fn changes_are_recorded_before_all_but_settling_actions() {
    assert!(records_first(&ConfirmAction::Measure));
    assert!(records_first(&ConfirmAction::Reserve));
    assert!(records_first(&ConfirmAction::Report));
    assert!(records_first(&ConfirmAction::Fail("failed".to_owned())));
    assert!(!records_first(&ConfirmAction::ActivateEmergency));
    assert!(!records_first(&ConfirmAction::ReleaseReserve));
    assert!(!records_first(&ConfirmAction::ReleaseEmergency));
    assert!(!records_first(&ConfirmAction::Discard));
    assert!(!records_first(&ConfirmAction::Persist));
}

#[test]
fn heads_name_the_version_of_the_report() {
    let head = new_run().head;
    assert_eq!(head.schema_version, SCHEMA_VERSION);
    assert_eq!(head.schema_version, 2);
    assert!(head.experimental);
    assert_eq!(head.compatibility, COMPATIBILITY);
    assert_eq!(head.cli_version, "0.0.3");
    assert_eq!(head.run_id, run_id(1, 2, 3));
    assert_eq!(head.request.timeout_seconds, 300);
    assert_eq!(head.preflight.lockfile_sha256, "lock");
    assert_eq!(head.target.binary_name, "app");
}

#[test]
fn emergency_records_say_what_a_failed_promotion_says() {
    let mut run = new_run();
    let emergency = run.emergency_record();
    assert_eq!(emergency.status, RunStatus::Failed);
    assert_eq!(emergency.final_decision, FinalDecision::Failed);
    assert_eq!(emergency.failure.phase, "promotion");
    assert_eq!(
        emergency.failure.message,
        "The promotion failed and its own failure record could not be written."
    );
    run.fail_promotion(EMERGENCY_MESSAGE.to_owned(), false);
    assert_eq!(run.status, emergency.status);
    assert_eq!(run.final_decision, emergency.final_decision);
    let failure = run.failure.expect("failure");
    assert_eq!(format!("{failure:?}"), format!("{:?}", emergency.failure));
}

fn recorded(profile_path: Option<Vec<u8>>) -> InterpositionRecord {
    InterpositionRecord {
        protocol: PROTOCOL,
        normalization: NORMALIZATION_VERSION,
        stage: ShimStage::Use,
        shim_executable: b"/toolchain/cargo-temper".to_vec(),
        shim_sha256: "shim".to_owned(),
        real_rustc: b"/toolchain/rustc".to_vec(),
        real_rustc_version: "rustc identity".to_owned(),
        capture_directory: b"/run/captures/pgo_use".to_vec(),
        profile_path,
        injected_flags: vec!["profile-use"],
    }
}

#[test]
fn only_pgo_candidates_are_interposed_in_their_confirmation() {
    let mut run = new_run();
    assert!(run.confirmation_interposition().expect("no candidate").is_none());

    let (found, _) = search(900, 800);
    run = found.run;
    assert!(run.confirmation_interposition().expect("static candidate").is_none());

    run.selected_candidate = Some(Strategy::Pgo);
    let refused = run.confirmation_interposition().err().expect("no build");
    assert_eq!(
        refused.message(),
        "Selected candidate pgo has no successful frozen build configuration."
    );

    let mut built = run.strategies[1].build.take().expect("static build");
    built.invocation.interposition = None;
    run.strategies[2].build = Some(built);
    let refused = run.confirmation_interposition().err().expect("no interposition");
    assert_eq!(refused.message(), "The selected PGO build has no recorded interposition.");

    run.strategies[2].build.as_mut().expect("build").invocation.interposition =
        Some(recorded(None));
    let refused = run.confirmation_interposition().err().expect("no profile");
    assert_eq!(refused.message(), "The selected PGO build has no recorded profile.");

    run.strategies[2].build.as_mut().expect("build").invocation.interposition =
        Some(recorded(Some(b"/run/pgo/merged.profdata".to_vec())));
    let (interposition, profile) = run
        .confirmation_interposition()
        .expect("a recorded interposition")
        .expect("a PGO candidate");
    assert_eq!(interposition.real_rustc, b"/toolchain/rustc".to_vec());
    assert_eq!(profile, b"/run/pgo/merged.profdata".to_vec());
}
