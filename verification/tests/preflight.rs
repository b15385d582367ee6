use temper::interposition::SUPPORTED_HOST;
use temper::preflight::{
    cpu_model, find_lockfile, kernel_version, lockfile_candidates, parse_host_triple, run,
    temper_exclusion, validate_requested_target, validate_supported_host, LockfileProbe,
    PreflightFacts, SourceReproducibility,
};
use temper::prerequisites::ToolProbe;

const RUSTC: &str = "rustc 1.97.1\nhost: x86_64-unknown-linux-gnu\nrelease: 1.97.1";

#[test]
fn parses_and_validates_the_supported_host() {
    assert_eq!(parse_host_triple(RUSTC).expect("supported host parses"), SUPPORTED_HOST);
    assert!(validate_supported_host("linux", SUPPORTED_HOST).is_ok());
    assert!(validate_supported_host("linux", "aarch64-unknown-linux-gnu").is_err());
    assert!(validate_requested_target(None).is_ok());
    assert!(validate_requested_target(Some(SUPPORTED_HOST)).is_ok());
    assert!(validate_requested_target(Some("aarch64-unknown-linux-gnu")).is_err());
}

#[test]
fn excludes_the_exact_nested_temper_directory() {
    assert_eq!(
        temper_exclusion(b"/repo", b"/repo/workspace/Cargo.lock")
            .expect("nested workspace exclusion"),
        ":(exclude,literal)workspace/.temper"
    );
}

fn printed(text: &str) -> ToolProbe {
    ToolProbe::Printed(text.as_bytes().to_vec())
}

fn facts(status: &str) -> PreflightFacts {
    PreflightFacts {
        operating_system: "linux".to_owned(),
        cargo_version: printed("cargo 1.97.1\n"),
        rustc_version: printed(RUSTC),
        manifest: Ok(b"/repo/Cargo.toml".to_vec()),
        manifest_is_file: true,
        lockfiles: vec![LockfileProbe {
            regular: true,
            canonical: Some(b"/repo/Cargo.lock".to_vec()),
        }],
        lockfile_sha256: Ok("digest".to_owned()),
        git_root: printed("/repo\n"),
        git_status: printed(status),
        kernel_name: Ok("Linux\n".to_owned()),
        kernel_release: Ok("6.18.0\n".to_owned()),
        cpu_info: Ok("processor\t: 0\nmodel name\t: Example CPU\n".to_owned()),
        logical_cores: Ok(8),
    }
}

#[test]
fn clean_sources_pass_and_dirty_ones_only_when_allowed() {
    let clean = run(b"Cargo.toml", false, None, facts("")).expect("clean");
    assert_eq!(clean.source_reproducibility, SourceReproducibility::Clean);
    assert_eq!(clean.record.cpu_model, "Example CPU");
    assert_eq!(clean.record.logical_core_count, 8);
    assert!(run(b"Cargo.toml", false, None, facts(" M src/lib.rs\n")).is_err());
    let dirty = run(b"Cargo.toml", true, None, facts(" M src/lib.rs\n")).expect("allowed");
    assert_eq!(dirty.source_reproducibility, SourceReproducibility::Dirty);
}

#[test]
fn unsupported_machines_do_not_pass() {
    assert!(validate_supported_host("macos", SUPPORTED_HOST).is_err());
    assert!(parse_host_triple("rustc 1.97.1").is_err());
    let mut missing = facts("");
    missing.lockfiles = vec![];
    assert!(run(b"Cargo.toml", false, None, missing).is_err());
    let mut directory = facts("");
    directory.manifest_is_file = false;
    assert!(run(b"Cargo.toml", false, None, directory).is_err());
    assert!(run(b"Cargo.toml", false, Some("aarch64-unknown-linux-gnu"), facts("")).is_err());
    assert!(kernel_version(&Err("io".to_owned()), &Ok("6".to_owned())).is_err());
    assert!(cpu_model(&Ok("processor: 0\n".to_owned())).is_err());
}

#[test]
fn the_nearest_lockfile_is_taken() {
    let places = lockfile_candidates(b"/a/b/Cargo.toml");
    assert_eq!(places[0], b"/a/b/Cargo.lock".to_vec());
    assert_eq!(places[1], b"/a/Cargo.lock".to_vec());
    let probe = |regular: bool, path: &str| LockfileProbe {
        regular,
        canonical: Some(path.as_bytes().to_vec()),
    };
    assert_eq!(
        find_lockfile(&vec![probe(false, "/a/b/Cargo.lock"), probe(true, "/a/Cargo.lock")]),
        Some(b"/a/Cargo.lock".to_vec())
    );
    assert_eq!(find_lockfile(&vec![]), None);
}
