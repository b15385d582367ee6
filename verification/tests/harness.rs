use temper::harness::{
    capture_name, classify, injected_flags, injection_mode, plan_invocation, protocol_failure,
    read_request, record_json, replacement_failure, stand_in_mode, write_record, Class, Injection,
    ObservedEnvironment, ShimValues, StandInMode, StoreOutcome, StoreStep, CAPTURE_NAME_LIMIT,
};
use temper::wrapper::{
    cache_key, changed_files, log_line, normalize, passed_exit_code, plan_wrapping, value_of,
    wrapper_label, FileStamp, WrapperOutcome, WrapperValues,
};

const TARGET: &str = "x86_64-unknown-linux-gnu";

fn arguments(values: &[&str]) -> Vec<Vec<u8>> {
    values.iter().map(|value| value.as_bytes().to_vec()).collect()
}

fn bytes(value: &str) -> Option<Vec<u8>> {
    Some(value.as_bytes().to_vec())
}

fn values() -> ShimValues {
    ShimValues {
        real_rustc: bytes("/toolchain/rustc"),
        capture_directory: bytes("/captures"),
        stage: bytes("generate"),
        target: bytes(TARGET),
        injection: bytes("generate=/raw"),
    }
}

fn environment() -> ObservedEnvironment {
    ObservedEnvironment {
        cargo_encoded_rustflags: None,
        rustflags: bytes(""),
        cargo_build_rustflags: None,
        cargo_primary_package: bytes("abc"),
        rustc_wrapper: None,
        rustc_workspace_wrapper: None,
    }
}

#[test]
fn experiment_invocations_are_classified() {
    let target = classify(
        &arguments(&[
            "--crate-name",
            "app",
            "--crate-type=bin",
            "--crate-type",
            "lib",
            "--target",
            TARGET,
            "--emit=link",
            "--out-dir",
            "/out",
            "-C",
            "metadata=abc",
            "-Cextra-filename=-abc",
        ]),
        TARGET,
    );
    assert_eq!(target.class, Class::TargetCompile);
    assert_eq!(target.crate_name.as_deref(), Some("app"));
    assert_eq!(target.crate_types, ["bin", "lib"]);
    assert_eq!(target.metadata.as_deref(), Some("abc"));
    assert_eq!(target.extra_filename.as_deref(), Some("-abc"));
    assert_eq!(target.out_dir.as_deref(), Some("/out"));
    assert_eq!(classify(&arguments(&["--emit", "link"]), TARGET).class, Class::HostCompile);
    let probe = classify(&arguments(&["--print", "cfg", "--emit=link"]), TARGET);
    assert_eq!(probe.class, Class::Probe);
    assert_eq!(classify(&arguments(&["-vV"]), TARGET).class, Class::Other);
}

#[test]
fn only_target_compilations_receive_the_experiment_control() {
    let injection = injection_mode(&bytes("use=/p.profdata")).expect("injection");
    assert_eq!(
        injected_flags(&injection, Class::TargetCompile),
        ["-Cprofile-use=/p.profdata", "-Cllvm-args=-pgo-warn-missing-function"]
    );
    for class in [Class::HostCompile, Class::Probe, Class::Other] {
        assert!(injected_flags(&injection, class).is_empty());
    }
    assert!(matches!(injection_mode(&None), Ok(Injection::Nothing)));
    assert!(matches!(injection_mode(&bytes("")), Ok(Injection::Nothing)));
    assert!(matches!(injection_mode(&bytes("none")), Ok(Injection::Nothing)));
    assert!(matches!(injection_mode(&Some(vec![0xff])), Ok(Injection::Nothing)));
    assert!(injection_mode(&bytes("generate=raw")).is_err());
    assert!(injection_mode(&bytes("other=/raw")).is_err());
}

#[test]
fn missing_protocol_values_are_named() {
    assert!(read_request(&values(), true).is_ok());
    let mut missing = values();
    missing.stage = None;
    assert_eq!(
        read_request(&missing, true).expect_err("missing stage"),
        "missing private protocol value TEMPER_EXP_STAGE"
    );
    let mut relative = values();
    relative.real_rustc = bytes("rustc");
    assert_eq!(
        read_request(&relative, true).expect_err("relative compiler"),
        "TEMPER_EXP_REAL_RUSTC must be an absolute path"
    );
    assert_eq!(
        read_request(&values(), false).expect_err("no directory"),
        "TEMPER_EXP_CAPTURE_DIR must be an existing directory"
    );
    let mut empty = values();
    empty.capture_directory = bytes("");
    assert!(read_request(&empty, true).is_err());
    let mut unreadable = values();
    unreadable.target = Some(vec![0xff]);
    assert!(read_request(&unreadable, true).is_err());
}

#[test]
fn a_record_is_one_line_of_json() {
    let request = read_request(&values(), true).expect("request");
    let given = arguments(&["--target", TARGET, "--emit=link", "a\"b"]);
    let record = plan_invocation(&request, &given, b"/work".to_vec(), 41, environment());
    assert_eq!(record.arguments, given);
    assert_eq!(record.final_arguments.len(), given.len() + 1);
    assert_eq!(record.final_arguments[given.len()], b"-Cprofile-generate=/raw".to_vec());
    let json = record_json(&record);
    assert!(json.ends_with("}}\n"));
    let document: serde_json::Value = serde_json::from_str(&json).expect("valid JSON");
    assert_eq!(document["protocol"], "temper-exp-shim-1");
    assert_eq!(document["pid"], 41);
    assert_eq!(document["class"], "target_compile");
    assert_eq!(document["crate_name"], serde_json::Value::Null);
    assert_eq!(document["injected"][0], "-Cprofile-generate=/raw");
    assert_eq!(document["argv_display"][3], "a\"b");
    assert_eq!(document["argv_hex"][3], "612262");
    assert_eq!(document["environment"]["RUSTFLAGS"]["empty"], true);
    assert_eq!(
        document["environment"]["CARGO_PRIMARY_PACKAGE"]["digest"],
        "ba7816bf8f01cfea414140de5dae2223b00361a396177a9cb410ff61f20015ad"
    );
    assert_eq!(document["environment"]["RUSTC_WRAPPER"]["present"], false);
    assert_ne!(document["pre_digest"], document["post_digest"]);
}

#[test]
fn records_are_stored_under_bounded_names() {
    assert_eq!(capture_name("abc", 7), "ba7816bf8f01cfea414140de5dae2223-07.json");
    assert_eq!(capture_name("abc", 63), "ba7816bf8f01cfea414140de5dae2223-63.json");
    assert!(matches!(write_record(0, StoreOutcome::AlreadyExists), StoreStep::Retry(1)));
    assert!(matches!(
        write_record(CAPTURE_NAME_LIMIT - 1, StoreOutcome::AlreadyExists),
        StoreStep::Failure("exhausted the bounded capture-name retry policy")
    ));
    assert!(matches!(write_record(0, StoreOutcome::Written), StoreStep::Done));
    assert!(matches!(write_record(0, StoreOutcome::NotWritten), StoreStep::Failure(_)));
    assert!(matches!(write_record(0, StoreOutcome::NotCreated), StoreStep::Failure(_)));
    assert_eq!(
        protocol_failure("no"),
        "temper shim protocol failure (temper-exp-shim-1): no"
    );
    assert_eq!(
        replacement_failure(b"/rustc", "denied"),
        "could not replace the shim with /rustc: denied"
    );
}

#[test]
fn the_stand_in_compiler_has_three_modes() {
    assert_eq!(stand_in_mode(&None), StandInMode::Echo);
    assert_eq!(stand_in_mode(&bytes("ok")), StandInMode::Echo);
    assert_eq!(stand_in_mode(&bytes("exit42")), StandInMode::Exit);
    assert_eq!(stand_in_mode(&bytes("abort")), StandInMode::Abort);
}

fn wrapper_values() -> WrapperValues {
    WrapperValues {
        mode: bytes("cache"),
        label: None,
        strip: bytes("/build/one"),
        cached_crate: None,
        encoded_rustflags: None,
        rustflags: bytes("-g"),
    }
}

#[test]
fn cache_keys_do_not_depend_on_the_build_directory() {
    let first = cache_key(
        b"rustc",
        &arguments(&["-L", "/build/one/deps", ""]),
        &bytes("/build/one"),
        &None,
        &bytes("-g"),
    );
    let second = cache_key(
        b"rustc",
        &arguments(&["-L", "/other/deps"]),
        &bytes("/other"),
        &None,
        &bytes("-g"),
    );
    assert_eq!(first, second);
    assert_eq!(first, "c02d9927df48c5fb84548ad31b1b0a4228dafd7de2828b4a4a3d3d6057f05613");
    assert_eq!(normalize(b"/build/one", &bytes("/build/one")), b"<ROOT>".to_vec());
    assert_eq!(normalize(b"/build/one", &bytes("")), b"/build/one".to_vec());
    assert_eq!(normalize(b"/build/one", &None), b"/build/one".to_vec());
}

#[test]
fn wrapped_invocations_pass_through_or_consult_the_cache() {
    let compile = arguments(&["rustc", "--crate-name", "app", "--emit=link", "--out-dir", "/o"]);
    let plan = plan_wrapping(&compile, &wrapper_values()).expect("wrapped program");
    assert!(plan.cached);
    assert_eq!(plan.program, b"rustc".to_vec());
    assert_eq!(plan.crate_name.as_deref(), Some("app"));
    assert_eq!(plan.out_dir.as_deref(), Some("/o"));
    let mut other = wrapper_values();
    other.cached_crate = bytes("lib");
    assert!(!plan_wrapping(&compile, &other).expect("wrapped program").cached);
    let mut logging = wrapper_values();
    logging.mode = None;
    assert!(!plan_wrapping(&compile, &logging).expect("wrapped program").cached);
    let probe = arguments(&["rustc", "--print=cfg"]);
    assert!(!plan_wrapping(&probe, &wrapper_values()).expect("wrapped program").cached);
    assert!(plan_wrapping(&vec![], &wrapper_values()).is_none());
    assert_eq!(value_of(&arguments(&["--out-dir"]), "--out-dir"), None);
}

#[test]
fn the_wrapper_logs_what_it_received() {
    let plan = plan_wrapping(&arguments(&["rustc", "-L"]), &wrapper_values()).expect("plan");
    let line = log_line("outer", WrapperOutcome::PassThrough, &plan);
    let document: serde_json::Value = serde_json::from_str(&line).expect("valid JSON");
    assert_eq!(document["label"], "outer");
    assert_eq!(document["outcome"], "pass_through");
    assert_eq!(
        document["received_digest"],
        "4f997bae5483d89801fcbed8ac89aa12e0af2f81e78934dffbe37e5faefc407f"
    );
    assert_eq!(document["next_program"], "rustc");
    assert_eq!(document["received_argv"][0], "-L");
    assert_eq!(wrapper_label(&bytes("given"), &None), "given");
    assert_eq!(wrapper_label(&None, &bytes("/bin/outer")), "outer");
    assert_eq!(wrapper_label(&None, &None), "wrapper");
}

#[test]
fn new_and_changed_files_are_stored() {
    let stamp = |name: &str, length: u64| FileStamp {
        name: name.as_bytes().to_vec(),
        length,
        modified: 5,
    };
    let before = vec![stamp("kept", 1), stamp("changed", 1)];
    let after = vec![stamp("changed", 2), stamp("kept", 1), stamp("new", 1)];
    assert_eq!(changed_files(&before, &after), arguments(&["changed", "new"]));
    assert_eq!(passed_exit_code(Some(3)), 3);
    assert_eq!(passed_exit_code(None), 1);
}
