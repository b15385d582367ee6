use temper::classify::{classify, InvocationClass};
use temper::interposition::{
    variable, Injection, ShimStage, Variable, CAPTURE_DIRECTORY_VARIABLE, INJECTION_VARIABLE,
    INPUT_CONFLICT_REASON, NAME_ATTEMPT_LIMIT, PROTOCOL, PROTOCOL_VARIABLE, REAL_RUSTC_VARIABLE,
    RECORD_BYTE_LIMIT, RUN_ROOT_VARIABLE, STAGE_VARIABLE, SUPPORTED_HOST,
    TARGET_DIRECTORY_VARIABLE, TARGET_VARIABLE,
};
use temper::paths::{extension, file_name, is_absolute, join, parent, same_path, starts_with, strip_prefix};
use temper::shim::{
    check_record_size, failure_marker, name_record, protocol_failure, protocol_failure_directory,
    rejection_line, run_shim, write_protocol_failure, write_record, CreateOutcome, DirectoryProbe,
    RecordStep, ShimContext, ShimProbes,
};
use temper::text::{bounded_prefix, decimal, lines, trim};
use temper::tools::{
    absolute_program, names_a_path, resolve_real_rustc, resolve_tools, search_path,
    validated_tools, CandidateProbe, CompilerSearch, ExecutableProbe, IdentityProbe, ProgramProbe,
    VersionProbe,
};

fn variables(injection: &str) -> Vec<Variable> {
    vec![
        variable(PROTOCOL_VARIABLE, PROTOCOL.as_bytes()),
        variable(RUN_ROOT_VARIABLE, b"/run"),
        variable(REAL_RUSTC_VARIABLE, b"/toolchain/rustc"),
        variable(STAGE_VARIABLE, b"pgo_generate"),
        variable(TARGET_VARIABLE, SUPPORTED_HOST.as_bytes()),
        variable(TARGET_DIRECTORY_VARIABLE, b"/run/target/pgo_generate"),
        variable(CAPTURE_DIRECTORY_VARIABLE, b"/run/captures/pgo_generate"),
        variable(INJECTION_VARIABLE, injection.as_bytes()),
    ]
}

fn directory(path: &str) -> DirectoryProbe {
    DirectoryProbe { canonical: Ok(path.as_bytes().to_vec()), directory: true }
}

fn program() -> ProgramProbe {
    ProgramProbe { directory: Ok(b"/toolchain".to_vec()), file: Ok(true) }
}

fn probes() -> ShimProbes {
    ShimProbes {
        run_root: directory("/run"),
        capture_directory: directory("/run/captures/pgo_generate"),
        target_directory: directory("/run/target/pgo_generate"),
        real_rustc: program(),
    }
}

fn context() -> ShimContext {
    ShimContext::from_environment(&variables("generate=/run/pgo/raw"), &probes()).expect("context")
}

fn arguments(values: &[&str]) -> Vec<Vec<u8>> {
    values.iter().map(|value| value.as_bytes().to_vec()).collect()
}

#[test]
fn the_private_protocol_is_read_from_the_environment() {
    let context = context();
    assert_eq!(context.stage, ShimStage::Generate);
    assert_eq!(context.real_rustc, b"/toolchain/rustc".to_vec());
    assert!(matches!(context.injection, Injection::Generate(path) if path == b"/run/pgo/raw"));

    let mut repeated = variables("none");
    repeated.push(variable(STAGE_VARIABLE, b"pgo_use"));
    assert!(ShimContext::from_environment(&repeated, &probes()).is_err());
    let outside = variables("generate=/elsewhere/raw");
    assert!(ShimContext::from_environment(&outside, &probes()).is_err());
    let mut escaped = probes();
    escaped.capture_directory = directory("/elsewhere");
    assert!(ShimContext::from_environment(&variables("none"), &escaped).is_err());
    assert!(ShimContext::from_environment(&vec![], &probes()).is_err());
}

#[test]
fn only_target_compilations_receive_controls() {
    let target = arguments(&["--crate-name", "app", "--target", SUPPORTED_HOST, "--emit=link"]);
    let decision = run_shim(&context(), &target);
    assert_eq!(decision.record.class, InvocationClass::TargetCompile);
    assert_eq!(decision.record.injected_flags, ["profile-generate"]);
    assert_eq!(decision.final_arguments.len(), target.len() + 1);
    assert_eq!(decision.final_arguments[5], b"-Cprofile-generate=/run/pgo/raw".to_vec());
    assert!(decision.rejection.is_none());
    assert_ne!(decision.record.pre_digest, decision.record.post_digest);

    let host = arguments(&["--crate-name", "build", "--emit=link"]);
    let decision = run_shim(&context(), &host);
    assert_eq!(decision.final_arguments, host);
    assert!(decision.record.injected_flags.is_empty());

    let conflict = arguments(&[
        "--crate-name",
        "app",
        "--target",
        SUPPORTED_HOST,
        "--emit=link",
        "-Cprofile-use=/p",
    ]);
    let decision = run_shim(&context(), &conflict);
    assert_eq!(decision.rejection, Some(INPUT_CONFLICT_REASON));
    assert_eq!(decision.record.rejection.as_deref(), Some(INPUT_CONFLICT_REASON));
}

#[test]
fn every_attempt_has_its_own_identity() {
    let mut record = run_shim(&context(), &arguments(&["-vV"])).record;
    let first = name_record(&mut record, 7, 1000, 0);
    assert_eq!(first, format!("{}.json", record.record_id));
    let second = name_record(&mut record, 7, 1000, 1);
    assert_ne!(first, second);
    assert_ne!(second, name_record(&mut record, 7, 1001, 1));
    assert!(matches!(write_record(0, CreateOutcome::Created), RecordStep::Write));
    assert!(matches!(write_record(0, CreateOutcome::AlreadyExists), RecordStep::Retry(1)));
    assert!(matches!(
        write_record(NAME_ATTEMPT_LIMIT - 1, CreateOutcome::AlreadyExists),
        RecordStep::Fail(_)
    ));
    assert!(matches!(
        write_record(0, CreateOutcome::Failed("denied".to_owned())),
        RecordStep::Fail(_)
    ));
    assert!(check_record_size(RECORD_BYTE_LIMIT).is_ok());
    assert!(check_record_size(RECORD_BYTE_LIMIT + 1).is_err());
}

#[test]
fn protocol_failures_are_bounded_and_stay_inside_the_run() {
    let long = "x".repeat(2000);
    assert!(protocol_failure(&long).len() < 700);
    assert_eq!(failure_marker("missing").message, "missing");
    assert!(write_protocol_failure(1, 2, 3).starts_with("protocol-failure-"));
    assert!(rejection_line("reason").contains("(reason)"));
    let capture = directory("/run/captures/pgo_generate");
    assert!(protocol_failure_directory(&variables("none"), &directory("/run"), &capture).is_some());
    let outside = protocol_failure_directory(
        &variables("none"),
        &directory("/run"),
        &directory("/elsewhere"),
    );
    assert!(outside.is_none());
}

#[test]
fn the_real_compiler_is_resolved_to_an_absolute_program() {
    assert_eq!(absolute_program(b"/toolchain/rustc", &program()), Ok(b"/toolchain/rustc".to_vec()));
    let missing = ProgramProbe { directory: Ok(b"/toolchain".to_vec()), file: Ok(false) };
    assert!(absolute_program(b"/toolchain/rustc", &missing).is_err());
    assert!(names_a_path(b"./rustc"));
    assert!(!names_a_path(b"rustc"));
    let candidate = |present: bool, mode: u32| CandidateProbe { present, regular: true, mode };
    assert_eq!(search_path(&vec![candidate(false, 0), candidate(true, 0o755)]), Some(1));
    assert_eq!(search_path(&vec![candidate(true, 0o644)]), None);
    assert!(resolve_real_rustc(&CompilerSearch::NotFound).is_err());
    assert!(resolve_real_rustc(&CompilerSearch::NoSearchPath).is_err());
    let found = CompilerSearch::Program(b"/toolchain/rustc".to_vec(), program());
    assert_eq!(resolve_real_rustc(&found), Ok(b"/toolchain/rustc".to_vec()));
}

#[test]
fn tool_identities_must_agree() {
    let shim = || ExecutableProbe { canonical: Ok(b"/bin/cargo-temper".to_vec()), regular: true };
    let identity = |version: &str| IdentityProbe {
        shim_sha256: Ok("shim".to_owned()),
        version: VersionProbe::Printed(version.as_bytes().to_vec()),
    };
    let tools = resolve_tools(
        shim(),
        Ok(b"/toolchain/rustc".to_vec()),
        &identity("rustc 1.97.1\n"),
        "rustc 1.97.1",
    )
    .expect("tools");
    assert_eq!(tools.real_rustc_version, "rustc 1.97.1");
    let other = resolve_tools(
        shim(),
        Ok(b"/toolchain/rustc".to_vec()),
        &identity("rustc 1.98.0\n"),
        "rustc 1.97.1",
    );
    assert!(other.is_err());
    let plan = temper::interposition::InterpositionPlan {
        stage: ShimStage::Generate,
        tools,
        run_root: b"/run".to_vec(),
        target_directory: b"/run/target/pgo_generate".to_vec(),
        capture_directory: b"/run/captures/pgo_generate".to_vec(),
        injection: Injection::Nothing,
    };
    let recorded = plan.record();
    assert!(validated_tools(&recorded, shim(), &program(), &identity("rustc 1.97.1\n")).is_ok());
    assert!(validated_tools(&recorded, shim(), &program(), &identity("rustc 1.98.0\n")).is_err());
}

#[test]
fn paths_are_compared_by_their_components() {
    assert_eq!(join(b"/a", b"b"), b"/a/b".to_vec());
    assert_eq!(join(b"/a/", b"b"), b"/a/b".to_vec());
    assert_eq!(join(b"/a", b"/b"), b"/b".to_vec());
    assert!(same_path(b"/a//b/./c/", b"/a/b/c"));
    assert!(!same_path(b"/a/b", b"/a/b/.."));
    assert!(starts_with(b"/a/b/c", b"/a/b"));
    assert!(!starts_with(b"/a/bc", b"/a/b"));
    assert!(is_absolute(b"/a") && !is_absolute(b"a"));
    assert_eq!(parent(b"/a/b"), Some(b"/a".to_vec()));
    assert_eq!(parent(b"/"), None);
    assert_eq!(file_name(b"/a/b.toml"), Some(b"b.toml".to_vec()));
    assert_eq!(file_name(b"/a/.."), None);
    assert_eq!(extension(b"/a/b.toml"), Some(b"toml".to_vec()));
    assert_eq!(extension(b"/a/.hidden"), None);
    assert_eq!(strip_prefix(b"/a/b/c", b"/a"), Some(b"b/c".to_vec()));
    assert_eq!(strip_prefix(b"/a/b", b"/c"), None);
}

#[test]
fn texts_are_cut_and_split_like_strings() {
    assert_eq!(bounded_prefix("aé", 2), "a");
    assert_eq!(bounded_prefix("aé", 3), "aé");
    assert_eq!(decimal(u64::MAX), u64::MAX.to_string());
    for text in ["", "a", "a\n", "a\r\nb", "\n\n", "a\rb"] {
        let expected: Vec<String> = text.lines().map(str::to_owned).collect();
        assert_eq!(lines(text), expected, "{text:?}");
    }
    for text in ["", " a ", "\t\u{a0}x\u{3000}", "a b"] {
        assert_eq!(trim(text), text.trim(), "{text:?}");
    }
    assert!(classify(&vec![], SUPPORTED_HOST).crate_name.is_none());
}
