use temper::cargo::{planned_invocation, BuildRecord, StreamRead, TargetSelection};
use temper::interposition::{Injection, InterpositionPlan, ShimStage, ShimTools, PROTOCOL};
use temper::phases::{ConfigSourceRecord, PgoPrerequisites, ToolIdentity};
use temper::prerequisites::PgoPrerequisiteFailure;
use temper::profiles::{
    bounded_diagnostics, check_output_place, merge_arguments, merge_profiles, BoundedToolStream,
    EntryKind, MergeProcess, MergedProbe, OutputPlace, ProfileEntry, ProfileFacts,
    ProfileFileRecord, ProfileMergeOutcome, ProfileWalk, RootProbe,
};
use temper::strategy::{BuildPlan, BuildStage, Strategy};
use temper::training::{
    prepare_profile_directory, raw_profile_directory, train_pgo, PgoFailureStage,
    PgoTrainingOutcome, PgoTrainingOutcomeKind, Training, TrainingAction, TrainingEvent,
};
use temper::tools::RootEvent;
use temper::workload::{WorkloadFailure, WorkloadFailureKind};

const RUN: &[u8] = b"/run";

fn selection() -> TargetSelection {
    TargetSelection {
        package_id: "app 0.1.0".to_owned(),
        package_name: "app".to_owned(),
        binary_name: "app".to_owned(),
        workspace_root: b"/w".to_vec(),
    }
}

fn prerequisites(config_sha256: &str) -> PgoPrerequisites {
    PgoPrerequisites {
        llvm_profdata_path: b"/toolchain/llvm-profdata".to_vec(),
        target_libdir: b"/toolchain/lib".to_vec(),
        real_rustc: b"/toolchain/rustc".to_vec(),
        real_rustc_version: "rustc 1.97.1".to_owned(),
        shim_executable: b"/bin/cargo-temper".to_vec(),
        shim_sha256: "shim".to_owned(),
        shim_protocol: PROTOCOL,
        inspected_config_sources: vec![ConfigSourceRecord {
            path: b"/w/.cargo/config.toml".to_vec(),
            sha256: config_sha256.to_owned(),
        }],
        tool_identity: ToolIdentity {
            cargo_version: "cargo 1.97.1".to_owned(),
            rustc_version: "rustc 1.97.1".to_owned(),
            llvm_profdata_path: b"/toolchain/llvm-profdata".to_vec(),
            llvm_profdata_sha256: "profdata".to_owned(),
            llvm_profdata_version: "LLVM 21".to_owned(),
        },
    }
}

fn interposition(stage: ShimStage, injection: Injection) -> InterpositionPlan {
    InterpositionPlan {
        stage,
        tools: ShimTools {
            shim_executable: b"/bin/cargo-temper".to_vec(),
            shim_sha256: "shim".to_owned(),
            real_rustc: b"/toolchain/rustc".to_vec(),
            real_rustc_version: "rustc 1.97.1".to_owned(),
        },
        run_root: RUN.to_vec(),
        target_directory: format!("/run/target/{}", stage.directory_name()).into_bytes(),
        capture_directory: format!("/run/captures/{}", stage.directory_name()).into_bytes(),
        injection,
    }
}

fn build(plan: &BuildPlan) -> BuildRecord {
    BuildRecord {
        invocation: planned_invocation(&selection(), plan),
        executable_path: b"/run/target/app".to_vec(),
        sha256: "sha".to_owned(),
        size_bytes: 10,
        build_duration_ms: 5,
        bounded_diagnostics: String::new(),
        diagnostics_truncated: false,
        compiler_evidence: None,
    }
}

fn profile() -> ProfileFileRecord {
    ProfileFileRecord {
        path: b"/run/pgo/raw/a.profraw".to_vec(),
        size_bytes: 5,
        sha256: "raw".to_owned(),
    }
}

fn place() -> OutputPlace {
    OutputPlace {
        canonical_directory: Ok(b"/run/pgo".to_vec()),
        canonical_parent: Ok(b"/run/pgo".to_vec()),
        existing: Ok(false),
    }
}

fn merged(stderr: &[u8]) -> (MergeProcess, MergedProbe) {
    let mut stream = BoundedToolStream::new();
    stream.drain(&StreamRead::Chunk(stderr.to_vec()));
    (
        MergeProcess::Ran {
            stdout: Some(BoundedToolStream::new()),
            stderr: Some(stream),
            wait: Ok(true),
        },
        MergedProbe {
            metadata: Ok((EntryKind::File, 9)),
            canonical: Ok(b"/run/pgo/merged.profdata".to_vec()),
            sha256: Ok("merged".to_owned()),
        },
    )
}

/// Trains, with the boundary as it is proved first and second.
fn train(
    first: Result<PgoPrerequisites, PgoPrerequisiteFailure>,
    second: &str,
    ran: Result<u64, WorkloadFailure>,
    profiles: Result<Vec<ProfileFileRecord>, String>,
) -> PgoTrainingOutcome {
    let mut training = Training::start(Strategy::ThinLto);
    let mut event = TrainingEvent::Proved(first);
    let mut ran = Some(ran);
    let mut profiles = Some(profiles);
    loop {
        let (next, action) = train_pgo(training, &selection(), RUN, event);
        event = match action {
            TrainingAction::Prove => TrainingEvent::Proved(Ok(prerequisites(second))),
            TrainingAction::Plan(stage, injection) => {
                TrainingEvent::Planned(Ok(interposition(stage, injection)))
            }
            TrainingAction::Build(plan) => TrainingEvent::Built(Ok(build(&plan))),
            TrainingAction::PrepareProfiles => {
                TrainingEvent::Prepared(Ok(raw_profile_directory(RUN)))
            }
            TrainingAction::Run(_, _) => TrainingEvent::Ran(ran.take().expect("one run")),
            TrainingAction::Discover(_) => {
                TrainingEvent::Discovered(profiles.take().expect("one discovery"))
            }
            TrainingAction::Merge(path) => {
                let (process, probe) = merged(b"");
                TrainingEvent::Merged(merge_profiles(
                    b"/toolchain/llvm-profdata",
                    &vec![profile()],
                    &path,
                    &place(),
                    process,
                    probe,
                ))
            }
            TrainingAction::Canonicalize(path) => TrainingEvent::Canonical(Ok(path)),
            TrainingAction::Finish(outcome) => return outcome,
        };
        training = next.expect("a training goes on");
    }
}

#[test]
fn a_training_with_unchanged_inputs_succeeds() {
    let outcome =
        train(Ok(prerequisites("same")), "same", Ok(100), Ok(vec![profile()]));
    match outcome {
        PgoTrainingOutcome::Trained(success) => {
            assert_eq!(success.record.outcome, PgoTrainingOutcomeKind::Trained);
            assert!(success.record.phase_parity.matched);
            assert_eq!(success.record.training_duration_ns, Some(100));
            assert_eq!(success.optimized_plan.stage, BuildStage::PgoOptimized);
            assert_eq!(success.optimized_plan.strategy, Strategy::Pgo);
        }
        other => panic!("a training succeeds: {other:?}"),
    }
}

#[test]
fn changed_configurations_reject_the_training() {
    let outcome =
        train(Ok(prerequisites("before")), "after", Ok(100), Ok(vec![profile()]));
    match outcome {
        PgoTrainingOutcome::Rejected(record) => {
            assert_eq!(record.outcome, PgoTrainingOutcomeKind::Rejected);
            assert_eq!(record.phase_parity.unexpected_differences, ["config_sources"]);
        }
        other => panic!("a changed configuration rejects: {other:?}"),
    }
}

#[test]
fn refused_boundaries_and_missing_profiles_reject_the_training() {
    let failure = PgoPrerequisiteFailure {
        reason: "unproven_compiler_override",
        message: "no".to_owned(),
        remediation: None,
    };
    match train(Err(failure), "same", Ok(100), Ok(vec![profile()])) {
        PgoTrainingOutcome::Rejected(record) => {
            assert_eq!(record.failure_stage, Some(PgoFailureStage::Prerequisites));
            assert_eq!(record.rejection_reason.as_deref(), Some("unproven_compiler_override"));
        }
        other => panic!("an unproved boundary rejects: {other:?}"),
    }
    match train(Ok(prerequisites("same")), "same", Ok(100), Ok(vec![])) {
        PgoTrainingOutcome::Rejected(record) => {
            assert_eq!(record.failure_stage, Some(PgoFailureStage::ProfileDiscovery));
        }
        other => panic!("missing profiles reject: {other:?}"),
    }
}

#[test]
fn interrupted_trainings_are_told_apart_from_rejected_ones() {
    let failure = |kind: WorkloadFailureKind| WorkloadFailure::new(kind, "failed".to_owned());
    let interrupted = train(
        Ok(prerequisites("same")),
        "same",
        Err(failure(WorkloadFailureKind::Interrupted)),
        Ok(vec![profile()]),
    );
    assert!(matches!(interrupted, PgoTrainingOutcome::Interrupted(_, _)));
    let rejected = train(
        Ok(prerequisites("same")),
        "same",
        Err(failure(WorkloadFailureKind::Timeout)),
        Ok(vec![profile()]),
    );
    assert!(matches!(rejected, PgoTrainingOutcome::Rejected(_)));
}

fn walk(entries: Vec<ProfileEntry>) -> Result<Vec<ProfileFileRecord>, String> {
    let probe = RootProbe {
        kind: Ok(EntryKind::Directory),
        canonical: Ok(b"/run/pgo/raw".to_vec()),
    };
    let mut walk = ProfileWalk::start(probe)?;
    let mut listings = vec![entries];
    while let Some(directory) = walk.next_directory() {
        let listing = listings.pop().unwrap_or_default();
        walk.take_listing(&directory, Ok(listing))?;
    }
    Ok(walk.finish())
}

fn found(path: &str, kind: EntryKind, size: u64) -> ProfileEntry {
    ProfileEntry::Found {
        path: path.as_bytes().to_vec(),
        kind,
        facts: ProfileFacts {
            canonical: Ok(path.as_bytes().to_vec()),
            metadata: Ok((true, size)),
            sha256: Ok("raw".to_owned()),
        },
    }
}

#[test]
fn profiles_are_found_in_a_fixed_order() {
    let profiles = walk(vec![
        found("/run/pgo/raw/b.profraw", EntryKind::File, 4),
        found("/run/pgo/raw/a.profraw", EntryKind::File, 4),
    ])
    .expect("profiles");
    let paths: Vec<&[u8]> = profiles.iter().map(|profile| profile.path.as_slice()).collect();
    assert_eq!(paths, [b"/run/pgo/raw/a.profraw".as_slice(), b"/run/pgo/raw/b.profraw"]);
    assert!(walk(vec![found("/run/pgo/raw/l.profraw", EntryKind::Symlink, 4)]).is_err());
    assert!(walk(vec![found("/run/pgo/raw/o.profraw", EntryKind::Other, 4)]).is_err());
    assert!(walk(vec![found("/run/pgo/raw/notes.txt", EntryKind::File, 4)]).is_ok());
    assert!(walk(vec![found("/elsewhere/a.profraw", EntryKind::File, 4)]).is_err());
    assert!(walk(vec![ProfileEntry::Unreadable("io".to_owned())]).is_err());
    let root = RootProbe { kind: Ok(EntryKind::Symlink), canonical: Ok(vec![]) };
    assert!(ProfileWalk::start(root).is_err());
}

#[test]
fn merges_must_be_silent_and_contained() {
    let merge = |process: MergeProcess, probe: MergedProbe| {
        merge_profiles(
            b"/toolchain/llvm-profdata",
            &vec![profile()],
            b"/run/pgo/merged.profdata",
            &place(),
            process,
            probe,
        )
    };
    let (process, probe) = merged(b"");
    let record = merge(process, probe);
    assert_eq!(record.outcome, ProfileMergeOutcome::Merged);
    assert_eq!(record.profdata_sha256.as_deref(), Some("merged"));
    let (process, probe) = merged(b"warning: mismatched counters");
    let record = merge(process, probe);
    assert_eq!(record.outcome, ProfileMergeOutcome::Rejected);
    assert!(record.bounded_diagnostics.contains("mismatched counters"));
    let (process, mut probe) = merged(b"");
    probe.canonical = Ok(b"/elsewhere/merged.profdata".to_vec());
    assert_eq!(merge(process, probe).outcome, ProfileMergeOutcome::Rejected);
    let (_, probe) = merged(b"");
    let record = merge(MergeProcess::NotStarted("denied".to_owned()), probe);
    assert_eq!(record.outcome, ProfileMergeOutcome::Rejected);
    let mut existing = place();
    existing.existing = Ok(true);
    assert!(check_output_place(b"/run/pgo/merged.profdata", &existing).is_some());
    assert!(check_output_place(b"/run/pgo/merged.profdata", &place()).is_none());
    assert_eq!(
        merge_arguments(b"/out", &vec![profile()])[0],
        b"merge".to_vec()
    );
    assert!(bounded_diagnostics(b"", b"").text.is_empty());
}

#[test]
fn profile_directories_are_prepared_inside_the_run() {
    let directory = raw_profile_directory(RUN);
    assert_eq!(directory, b"/run/pgo/raw".to_vec());
    let prepared = prepare_profile_directory(&directory, RootEvent::Canonical(directory.clone()));
    assert_eq!(prepared, Ok(directory.clone()));
    assert!(prepare_profile_directory(&directory, RootEvent::NotCreated("io".to_owned())).is_err());
}

#[test]
fn the_optimized_stage_rests_on_its_own_prerequisites() {
    let mut training = Training::start(Strategy::ThinLto);
    assert!(training.proved().is_none());
    training.state.prerequisites = Some(prerequisites("first"));
    let first = format!("{:?}", training.proved().expect("first proof"));
    assert_eq!(first, format!("{:?}", prerequisites("first")));
    training.optimization = Some(prerequisites("second"));
    let second = format!("{:?}", training.proved().expect("second proof"));
    assert_eq!(second, format!("{:?}", prerequisites("second")));
    assert_ne!(first, second);
}

const ALLOWLIST: [&str; 5] = [
    "interposition_stage",
    "target_directory",
    "capture_directory",
    "profile_generate_vs_use",
    "pgo_warn_missing_function_in_use",
];

#[test]
fn trainings_start_with_nothing_but_their_allowlist() {
    let training = Training::start(Strategy::FatLtoCgu1);
    assert_eq!(training.state.base_strategy, Strategy::FatLtoCgu1);
    assert!(training.raw_directory.is_empty());
    assert!(training.merged_profile.is_empty());
    assert!(training.optimization.is_none());
    let state = training.state;
    assert!(state.prerequisites.is_none());
    assert!(state.reference_build.is_none());
    assert!(state.reference_failure.is_none());
    assert!(state.instrumentation_build.is_none());
    assert!(state.instrumentation_failure.is_none());
    assert_eq!(state.training_duration_ns, None);
    assert!(state.raw_profile_files.is_empty());
    assert!(state.merge.is_none());
    assert_eq!(state.phase_parity.permitted_differences, ALLOWLIST);
    assert!(state.phase_parity.reference.is_none());
    assert!(state.phase_parity.instrumentation.is_none());
    assert!(state.phase_parity.optimization.is_none());
    assert!(!state.phase_parity.matched);
    assert!(state.phase_parity.unexpected_differences.is_empty());
}

#[test]
fn every_training_records_its_allowlist() {
    match train(Ok(prerequisites("same")), "same", Ok(100), Ok(vec![profile()])) {
        PgoTrainingOutcome::Trained(success) => {
            assert_eq!(success.record.phase_parity.permitted_differences, ALLOWLIST);
            assert_eq!(success.record.base_strategy, Strategy::ThinLto);
        }
        other => panic!("a training succeeds: {other:?}"),
    }
    match train(Ok(prerequisites("before")), "after", Ok(100), Ok(vec![profile()])) {
        PgoTrainingOutcome::Rejected(record) => {
            assert_eq!(record.phase_parity.permitted_differences, ALLOWLIST);
        }
        other => panic!("a changed configuration rejects: {other:?}"),
    }
}

#[test]
fn a_refused_boundary_records_nothing_but_its_refusal() {
    let failure = PgoPrerequisiteFailure {
        reason: "unproven_compiler_override",
        message: "no".to_owned(),
        remediation: Some("remove it"),
    };
    match train(Err(failure), "unused", Ok(100), Ok(vec![])) {
        PgoTrainingOutcome::Rejected(record) => {
            assert_eq!(record.rejection_reason.as_deref(), Some("unproven_compiler_override"));
            assert_eq!(record.message.as_deref(), Some("no"));
            assert_eq!(record.remediation, Some("remove it"));
            assert!(record.prerequisites.is_none());
            assert!(record.reference_build.is_none());
            assert!(record.instrumentation_build.is_none());
            assert_eq!(record.training_duration_ns, None);
            assert!(record.raw_profile_files.is_empty());
            assert!(record.merge.is_none());
            assert!(record.phase_parity.reference.is_none());
            assert_eq!(record.phase_parity.permitted_differences, ALLOWLIST);
            assert_eq!(
                record.phase_parity.unexpected_differences,
                ["instrumentation_inputs_unavailable"]
            );
        }
        other => panic!("a refused boundary rejects: {other:?}"),
    }
}
