use temper::capture::{
    collect, CaptureAggregate, CaptureEntry, CaptureFailure, CaptureListing, EntryStatus,
    RecordRead,
};
use temper::classify::InvocationClass;
use temper::interposition::{
    Injection, InterpositionPlan, ShimStage, ShimTools, CAPTURE_CORRUPT_REASON,
    CAPTURE_LIMIT_REASON, CAPTURE_MISSING_REASON, FIELD_LIMIT, INJECTION_UNEXPECTED_REASON,
    INPUT_CONFLICT_REASON, NORMALIZATION_VERSION, PROTOCOL, PROTOCOL_FAILURE_REASON, RECORD_LIMIT,
};
use temper::shim::{CaptureRecord, ProtocolFailureMarker};
use temper::tools::{
    canonical_root, claim_directory, plan_stage, stage_directory, ClaimEvent, RootEvent,
    StageDirectories,
};

/// Builds one valid record for the stage under test.
fn capture_record(class: InvocationClass, injected: &[&str]) -> CaptureRecord {
    CaptureRecord {
        protocol: PROTOCOL.to_owned(),
        normalization: NORMALIZATION_VERSION,
        record_id: String::new(),
        stage: ShimStage::Generate,
        class,
        exact_target: class == InvocationClass::TargetCompile,
        emit: true,
        print: false,
        crate_name: Some("app".to_owned()),
        crate_types: vec!["bin".to_owned()],
        metadata: Some("metadata".to_owned()),
        extra_filename: Some("-extra".to_owned()),
        argument_count: 5,
        pre_digest: "pre".to_owned(),
        post_digest: "post".to_owned(),
        normalized_digest: "normalized".to_owned(),
        argument_digests: vec!["a".to_owned(), "b".to_owned()],
        injected_flags: injected.iter().map(|flag| (*flag).to_owned()).collect(),
        rejection: None,
    }
}

fn tools() -> ShimTools {
    ShimTools {
        shim_executable: b"/toolchain/cargo-temper".to_vec(),
        shim_sha256: "shim".to_owned(),
        real_rustc: b"/toolchain/rustc".to_vec(),
        real_rustc_version: "rustc identity".to_owned(),
    }
}

fn generate_plan(root: &str) -> InterpositionPlan {
    InterpositionPlan {
        stage: ShimStage::Generate,
        tools: tools(),
        run_root: root.as_bytes().to_vec(),
        target_directory: format!("{root}/target/pgo_generate").into_bytes(),
        capture_directory: format!("{root}/captures/pgo_generate").into_bytes(),
        injection: Injection::Generate(format!("{root}/pgo/raw").into_bytes()),
    }
}

fn entry(
    plan: &InterpositionPlan,
    name: &str,
    length: u64,
    marker: Option<ProtocolFailureMarker>,
    record: RecordRead,
) -> Result<CaptureEntry, String> {
    let mut path = plan.capture_directory.clone();
    path.push(b'/');
    path.extend_from_slice(name.as_bytes());
    Ok(CaptureEntry {
        name: name.as_bytes().to_vec(),
        path,
        status: Ok(EntryStatus { symlink: false, regular: true, length }),
        marker,
        record,
    })
}

fn write_capture(
    plan: &InterpositionPlan,
    identity: &str,
    record: &CaptureRecord,
) -> Result<CaptureEntry, String> {
    let mut stored = record.clone();
    stored.record_id = identity.to_owned();
    entry(plan, &format!("{identity}.json"), 400, None, RecordRead::Parsed(stored))
}

fn collected(
    plan: &InterpositionPlan,
    entries: Vec<Result<CaptureEntry, String>>,
) -> Result<CaptureAggregate, CaptureFailure> {
    collect(
        plan,
        CaptureListing { root: Ok(plan.capture_directory.clone()), entries: Ok(entries) },
    )
}

#[test]
fn a_complete_capture_set_aggregates_deterministically() {
    let plan = generate_plan("/run");
    let target = capture_record(InvocationClass::TargetCompile, &["profile-generate"]);
    let probe = capture_record(InvocationClass::Probe, &[]);
    let aggregate = collected(
        &plan,
        vec![
            write_capture(&plan, "target-record", &target),
            write_capture(&plan, "probe-record", &probe),
        ],
    )
    .expect("complete capture set");
    assert_eq!(aggregate.record_count, 2);
    assert_eq!(aggregate.target_compilations, 1);
    assert_eq!(aggregate.probes, 1);
    assert_eq!(aggregate.injected_invocations, 1);
    assert_eq!(aggregate.capture_digest.len(), 64);

    // The aggregate is keyed by content, not by creation order.
    let mirrored = generate_plan("/mirror");
    let mirror = collected(
        &mirrored,
        vec![
            write_capture(&mirrored, "probe-record", &probe),
            write_capture(&mirrored, "target-record", &target),
        ],
    )
    .expect("mirrored capture set");
    assert_eq!(mirror.capture_digest, aggregate.capture_digest);
}

#[test]
fn capture_validation_fails_closed_on_every_integrity_defect() {
    let plan = generate_plan("/run");
    let target = capture_record(InvocationClass::TargetCompile, &["profile-generate"]);
    let mut declared = target.clone();
    declared.record_id = "declared-identity".to_owned();
    let mut foreign = target.clone();
    foreign.stage = ShimStage::Use;
    let marker = ProtocolFailureMarker {
        protocol: PROTOCOL.to_owned(),
        reason: PROTOCOL_FAILURE_REASON.to_owned(),
        message: "missing private protocol value".to_owned(),
    };
    let cases: Vec<(&str, &str, Vec<Result<CaptureEntry, String>>)> = vec![
        (
            "no target compilation",
            CAPTURE_MISSING_REASON,
            vec![write_capture(&plan, "probe-only", &capture_record(InvocationClass::Probe, &[]))],
        ),
        (
            "identity does not match its file name",
            CAPTURE_CORRUPT_REASON,
            vec![entry(&plan, "stored-identity.json", 400, None, RecordRead::Parsed(declared))],
        ),
        (
            "malformed record",
            CAPTURE_CORRUPT_REASON,
            vec![entry(
                &plan,
                "malformed.json",
                12,
                None,
                RecordRead::Malformed("EOF while parsing a value".to_owned()),
            )],
        ),
        (
            "foreign stage",
            CAPTURE_CORRUPT_REASON,
            vec![write_capture(&plan, "foreign-stage", &foreign)],
        ),
        (
            "unexpected host injection",
            INJECTION_UNEXPECTED_REASON,
            vec![
                write_capture(&plan, "target-record", &target),
                write_capture(
                    &plan,
                    "host-record",
                    &capture_record(InvocationClass::HostCompile, &["profile-generate"]),
                ),
            ],
        ),
        (
            "missing phase control",
            INJECTION_UNEXPECTED_REASON,
            vec![write_capture(
                &plan,
                "target-record",
                &capture_record(InvocationClass::TargetCompile, &[]),
            )],
        ),
        (
            "over-sized record",
            CAPTURE_LIMIT_REASON,
            vec![entry(
                &plan,
                "oversized.json",
                65 * 1024,
                None,
                RecordRead::Malformed("not read".to_owned()),
            )],
        ),
        (
            "protocol failure marker",
            PROTOCOL_FAILURE_REASON,
            vec![
                write_capture(&plan, "target-record", &target),
                entry(
                    &plan,
                    "protocol-failure-abc.json",
                    120,
                    Some(marker),
                    RecordRead::Malformed("not a record".to_owned()),
                ),
            ],
        ),
    ];
    for (label, expected, entries) in cases {
        let failure = collected(&plan, entries).expect_err(label);
        assert_eq!(failure.reason, expected, "{label}");
    }
}

#[test]
fn more_records_than_the_stage_budget_fail_closed() {
    let plan = generate_plan("/run");
    let record = capture_record(InvocationClass::TargetCompile, &["profile-generate"]);
    let entries = (0..=RECORD_LIMIT)
        .map(|index| write_capture(&plan, &format!("record-{index:06}"), &record))
        .collect();
    let failure = collected(&plan, entries).expect_err("record budget");
    assert_eq!(failure.reason, CAPTURE_LIMIT_REASON);
}

#[test]
fn rejected_invocations_are_carried_into_the_failure() {
    let plan = generate_plan("/run");
    let mut rejected = capture_record(InvocationClass::TargetCompile, &["profile-generate"]);
    rejected.rejection = Some(INPUT_CONFLICT_REASON.to_owned());
    let failure = collected(&plan, vec![write_capture(&plan, "rejected", &rejected)])
        .expect_err("rejected invocation");
    assert_eq!(failure.reason, INPUT_CONFLICT_REASON);
    let moved = collect(
        &plan,
        CaptureListing { root: Ok(b"/elsewhere".to_vec()), entries: Ok(vec![]) },
    )
    .expect_err("moved directory");
    assert_eq!(moved.reason, CAPTURE_CORRUPT_REASON);
}

/// Claims the two directories of a stage in a directory tree in memory.
fn claim_stage(existing: &mut Vec<Vec<u8>>, name: &str) -> Result<StageDirectories, String> {
    let mut claim = |path: Vec<u8>| {
        let event = if existing.contains(&path) {
            ClaimEvent::AlreadyExists
        } else {
            existing.push(path.clone());
            ClaimEvent::Canonical(path.clone())
        };
        claim_directory(&path, event)
    };
    let target = claim(stage_directory(b"/run/target", name))?;
    let capture = claim(stage_directory(b"/run/captures", name))?;
    Ok(StageDirectories { target, capture })
}

#[test]
fn stage_directories_must_be_unique_and_initially_absent() {
    let mut existing: Vec<Vec<u8>> = vec![];
    let claimed = claim_stage(&mut existing, "pgo_reference").expect("first claim");
    assert!(existing.contains(&claimed.target));
    assert!(existing.contains(&claimed.capture));
    assert!(claim_stage(&mut existing, "pgo_reference").is_err());
}

#[test]
fn claimed_directories_do_not_alias_other_paths() {
    let aliased = claim_directory(b"/run/target/a", ClaimEvent::Canonical(b"/other".to_vec()));
    assert!(aliased.is_err());
    assert!(claim_directory(b"/run/a", ClaimEvent::NotCreated("denied".to_owned())).is_err());
    assert!(claim_directory(b"/run/a", ClaimEvent::NotCanonical("denied".to_owned())).is_err());
    assert!(canonical_root(b"/run", RootEvent::Canonical(b"/run".to_vec())).is_ok());
    assert!(canonical_root(b"/run", RootEvent::NotCreated("denied".to_owned())).is_err());
}

#[test]
fn planned_stages_keep_their_directories_inside_the_run() {
    let mut existing: Vec<Vec<u8>> = vec![];
    let directories = claim_stage(&mut existing, "pgo_generate").expect("claimed");
    let plan = plan_stage(
        &tools(),
        b"/run".to_vec(),
        directories,
        ShimStage::Generate,
        Injection::Generate(b"/run/pgo/raw".to_vec()),
    )
    .expect("planned stage");
    assert_eq!(plan.target_directory, b"/run/target/pgo_generate".to_vec());
    assert_eq!(plan.record().injected_flags, ["profile-generate"]);
    assert!(plan.apply().iter().any(|variable| variable.name == b"RUSTC"));
}

#[test]
fn aggregates_do_not_depend_on_the_directory() {
    let target = capture_record(InvocationClass::TargetCompile, &["profile-generate"]);
    let host = capture_record(InvocationClass::HostCompile, &[]);
    let probe = capture_record(InvocationClass::Probe, &[]);
    let here = generate_plan("/run");
    let there = generate_plan("/some/other/run");
    let first = collected(
        &here,
        vec![
            write_capture(&here, "a", &target),
            write_capture(&here, "b", &host),
            write_capture(&here, "c", &probe),
        ],
    )
    .expect("first set");
    let second = collected(
        &there,
        vec![
            write_capture(&there, "c", &probe),
            write_capture(&there, "a", &target),
            write_capture(&there, "b", &host),
        ],
    )
    .expect("second set");
    assert_eq!(second.capture_digest, first.capture_digest);
    assert_eq!(second.record_count, 3);
    assert_eq!(second.record_count, first.record_count);
    assert_eq!(second.capture_bytes, 1200);
    assert_eq!(second.capture_bytes, first.capture_bytes);
    assert_eq!(second.target_compilations, first.target_compilations);
    assert_eq!(second.host_compilations, first.host_compilations);
    assert_eq!(second.probes, first.probes);
    assert_eq!(second.other_invocations, first.other_invocations);
    assert_eq!(second.injected_invocations, first.injected_invocations);
    assert_eq!(second.injected_flags, first.injected_flags);
    assert_eq!(format!("{:?}", second.records), format!("{:?}", first.records));
}

#[test]
fn absolute_record_names_tie_a_record_to_its_directory() {
    let mut target = capture_record(InvocationClass::TargetCompile, &["profile-generate"]);
    target.record_id = "/run/captures/pgo_generate/a".to_owned();
    let here = generate_plan("/run");
    let there = generate_plan("/mirror");
    let listed = vec![entry(&here, "a.json", 400, None, RecordRead::Parsed(target.clone()))];
    assert!(collected(&here, listed).is_ok());
    let moved = vec![entry(&there, "a.json", 400, None, RecordRead::Parsed(target))];
    let failure = collected(&there, moved).expect_err("a moved record");
    assert_eq!(failure.reason, CAPTURE_CORRUPT_REASON);
}

#[test]
fn refusals_have_bounded_messages() {
    let plan = generate_plan("/run");
    let listing = CaptureListing {
        root: Err("x".repeat(FIELD_LIMIT * 2)),
        entries: Ok(vec![]),
    };
    let failure = collect(&plan, listing).expect_err("no directory");
    assert_eq!(failure.reason, CAPTURE_MISSING_REASON);
    assert_eq!(failure.message.len(), FIELD_LIMIT);
    let listed = vec![Err("y".repeat(FIELD_LIMIT * 2))];
    let failure = collected(&plan, listed).expect_err("an unreadable entry");
    assert_eq!(failure.reason, CAPTURE_MISSING_REASON);
    assert_eq!(failure.message.len(), FIELD_LIMIT);
}
