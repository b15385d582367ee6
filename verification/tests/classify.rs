use temper::classify::{
    argument_digest, classify, normalize_argument, normalize_arguments, short_digest,
    Classification, InvocationClass,
};
use temper::interposition::{
    Injection, ShimStage, ARGUMENT_LIMIT, CRATE_TYPE_LIMIT, INPUT_AMBIGUITY_REASON,
    INPUT_CONFLICT_REASON,
};

const TARGET: &str = "x86_64-unknown-linux-gnu";

fn arguments(values: &[&str]) -> Vec<Vec<u8>> {
    values.iter().map(|value| value.as_bytes().to_vec()).collect()
}

fn classification(values: &[&str]) -> Classification {
    classify(&arguments(values), TARGET)
}

#[test]
fn classifies_target_compilations_by_target_and_emit() {
    let target =
        classification(&["--crate-name", "app", "--target", TARGET, "--emit=dep-info,link"]);
    assert_eq!(target.class, InvocationClass::TargetCompile);
    assert_eq!(target.crate_name.as_deref(), Some("app"));
    assert!(target.rejection().is_none());

    let equals_form =
        classification(&["--crate-name=app", &format!("--target={TARGET}"), "--emit=link"]);
    assert_eq!(equals_form.class, InvocationClass::TargetCompile);
}

#[test]
fn passes_probes_and_host_units_through() {
    let probe = classification(&["--print=file-names", "--target", TARGET, "--emit=link"]);
    assert_eq!(probe.class, InvocationClass::Probe);
    assert!(probe.rejection().is_none());

    let host = classification(&["--crate-name", "build_script_build", "--emit=link"]);
    assert_eq!(host.class, InvocationClass::HostCompile);

    let foreign = classification(&[
        "--crate-name",
        "app",
        "--target",
        "aarch64-unknown-linux-gnu",
        "--emit=link",
    ]);
    assert_eq!(foreign.class, InvocationClass::HostCompile);

    let version = classification(&["-vV"]);
    assert_eq!(version.class, InvocationClass::Other);
}

#[test]
fn a_host_path_containing_the_triple_is_not_a_target_compilation() {
    let host = classification(&[
        "--crate-name",
        "macro",
        "--out-dir",
        "/tmp/x86_64-unknown-linux-gnu/release",
        "--emit=link",
    ]);
    assert_eq!(host.class, InvocationClass::HostCompile);
}

#[test]
fn rejects_existing_profiling_and_coverage_controls() {
    for control in
        ["-Cprofile-generate=/tmp/p", "-Cprofile-use=/tmp/p.profdata", "-Cinstrument-coverage"]
    {
        let record = classification(&[
            "--crate-name",
            "app",
            "--target",
            TARGET,
            "--emit=link",
            control,
        ]);
        assert_eq!(record.rejection(), Some(INPUT_CONFLICT_REASON), "{control}");
    }
    let split = classification(&[
        "--crate-name",
        "app",
        "--target",
        TARGET,
        "--emit=link",
        "-C",
        "profile-use=/tmp/p.profdata",
    ]);
    assert_eq!(split.rejection(), Some(INPUT_CONFLICT_REASON));

    let host = classification(&["--crate-name", "build", "--emit=link", "-Cprofile-use=/p"]);
    assert!(host.rejection().is_none());
}

#[test]
fn rejects_ambiguous_target_and_identity_shapes() {
    let conflicting_targets = classification(&[
        "--crate-name",
        "app",
        "--target",
        TARGET,
        "--target",
        "aarch64-unknown-linux-gnu",
        "--emit=link",
    ]);
    assert_eq!(conflicting_targets.rejection(), Some(INPUT_AMBIGUITY_REASON));

    let anonymous = classification(&["--target", TARGET, "--emit=link"]);
    assert_eq!(anonymous.rejection(), Some(INPUT_AMBIGUITY_REASON));
}

#[test]
fn bounds_recorded_crate_types() {
    let mut values = vec!["--crate-name", "app", "--target", TARGET, "--emit=link"];
    values.extend(std::iter::repeat("--crate-type=lib").take(CRATE_TYPE_LIMIT + 4));
    assert_eq!(classification(&values).crate_types.len(), CRATE_TYPE_LIMIT);
}

#[test]
fn digests_frame_raw_argument_bytes() {
    let split = arguments(&["ab", "c"]);
    let joined = arguments(&["abc"]);
    assert_ne!(argument_digest(&split), argument_digest(&joined));

    let invalid = vec![vec![0xff, 0xfe]];
    assert_eq!(argument_digest(&invalid).len(), 64);
}

#[test]
fn stage_root_normalization_covers_every_observed_position() {
    let stage_root = b"/run/target/pgo_generate".as_slice();
    for (argument, expected) in [
        ("/run/target/pgo_generate/release/deps", "<STAGE_ROOT>/release/deps"),
        (
            "dependency=/run/target/pgo_generate/release/deps",
            "dependency=<STAGE_ROOT>/release/deps",
        ),
        (
            "unitlib=/run/target/pgo_generate/release/deps/libunitlib.rlib",
            "unitlib=<STAGE_ROOT>/release/deps/libunitlib.rlib",
        ),
        ("--emit=dep-info,link", "--emit=dep-info,link"),
    ] {
        assert_eq!(
            normalize_argument(argument.as_bytes(), stage_root),
            expected.as_bytes(),
            "{argument}"
        );
    }
    // A stage-root-free argument keeps its exact bytes, including invalid UTF-8.
    assert_eq!(normalize_argument(&[0xff, 0xfe], stage_root), vec![0xff, 0xfe]);
}

#[test]
fn an_unbounded_target_argv_is_unsupported_rather_than_compared() {
    let mut values = vec!["--crate-name", "app", "--target", TARGET, "--emit=link"];
    values.extend(std::iter::repeat("--cfg=pad").take(ARGUMENT_LIMIT));
    assert_eq!(classification(&values).rejection(), Some(INPUT_AMBIGUITY_REASON));
}

#[test]
fn injection_round_trips_through_the_private_protocol() {
    let generate = Injection::Generate(b"/run/raw".to_vec());
    let parsed = Injection::parse(&generate.encode()).expect("generate round trip");
    assert!(matches!(parsed, Injection::Generate(path) if path == b"/run/raw"));
    assert!(Injection::parse(&Injection::Nothing.encode()).is_ok());
    assert!(Injection::parse(b"generate=relative").is_err());
    assert!(Injection::parse(b"unknown=/run").is_err());
    assert_eq!(
        Injection::Use(b"/run/p".to_vec()).flag_identifiers(),
        vec!["profile-use", "pgo-warn-missing-function"]
    );
}

#[test]
fn stage_labels_round_trip() {
    for stage in
        [ShimStage::Reference, ShimStage::Generate, ShimStage::Use, ShimStage::Confirmation]
    {
        assert_eq!(ShimStage::parse(stage.label()), Some(stage));
    }
    assert_eq!(ShimStage::parse("baseline"), None);
}

#[test]
fn stages_normalize_to_the_same_arguments() {
    let first = normalize_arguments(&arguments(&["-L", "dependency=/a/one/deps"]), b"/a/one");
    let second = normalize_arguments(&arguments(&["-L", "dependency=/b/two/deps"]), b"/b/two");
    assert_eq!(first, second);
    assert_eq!(normalize_argument(b"kept", b""), b"kept".to_vec());
}

#[test]
fn short_digests_are_a_prefix_of_the_sha256_digest() {
    assert_eq!(short_digest(b"a"), "0e1b0880f3a7ea76");
    assert_ne!(short_digest(b"a"), short_digest(b"b"));
}

#[test]
fn codegen_options_and_unreadable_names_are_recorded() {
    let unit = classification(&[
        "--crate-name",
        "app",
        "--target",
        TARGET,
        "--emit=link",
        "-C",
        "metadata=abc",
        "-Cextra-filename=-abc",
    ]);
    assert_eq!(unit.metadata.as_deref(), Some("abc"));
    assert_eq!(unit.extra_filename.as_deref(), Some("-abc"));
    let mut raw = arguments(&["--target", TARGET, "--emit=link", "--crate-name"]);
    raw.push(vec![0xff]);
    let unreadable = classify(&raw, TARGET);
    assert!(unreadable.crate_name.is_none());
    assert_eq!(unreadable.rejection(), Some(INPUT_AMBIGUITY_REASON));
}
