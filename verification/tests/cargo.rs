use temper::cargo::{
    accept_build, build_arguments, drain_bounded, end_build, floor_char_boundary,
    planned_invocation, read_metadata, resolve_target, select_binary, workspace_lockfile_path,
    BoundedDiagnostics, BuildEnd, BuildFailure, BuildProgress, ExecutableFacts, MetadataProbe,
    StreamRead, TargetSelection, Workspace, BUILD_FAILED_REASON, DIAGNOSTIC_LIMIT,
};
use temper::strategy::{BuildPlan, Strategy};

const METADATA: &str = r#"{"packages":[{"name":"app","version":"0.1.0","id":"path+file:///w/app#0.1.0","license":null,"license_file":null,"description":null,"source":null,"dependencies":[],"targets":[{"kind":["bin"],"crate_types":["bin"],"name":"app","src_path":"/w/app/src/main.rs","edition":"2021","doc":true,"doctest":false,"test":true},{"kind":["lib"],"crate_types":["lib"],"name":"applib","src_path":"/w/app/src/lib.rs","edition":"2021","doc":true,"doctest":true,"test":true}],"features":{},"manifest_path":"/w/app/Cargo.toml","metadata":null,"publish":null,"authors":[],"categories":[],"keywords":[],"readme":null,"repository":null,"homepage":null,"documentation":null,"edition":"2021","links":null,"default_run":null,"rust_version":null},{"name":"tool","version":"0.1.0","id":"path+file:///w/tool#0.1.0","license":null,"license_file":null,"description":null,"source":null,"dependencies":[],"targets":[{"kind":["bin"],"crate_types":["bin"],"name":"tool","src_path":"/w/tool/src/main.rs","edition":"2021","doc":true,"doctest":false,"test":true}],"features":{},"manifest_path":"/w/tool/Cargo.toml","metadata":null,"publish":null,"authors":[],"categories":[],"keywords":[],"readme":null,"repository":null,"homepage":null,"documentation":null,"edition":"2021","links":null,"default_run":null,"rust_version":null}],"workspace_members":["path+file:///w/app#0.1.0","path+file:///w/tool#0.1.0"],"workspace_default_members":["path+file:///w/app#0.1.0"],"resolve":null,"target_directory":"/w/target","build_directory":"/w/target","version":1,"workspace_root":"/w","metadata":null}"#;

fn workspace() -> Workspace {
    read_metadata(&MetadataProbe::Printed(METADATA.as_bytes().to_vec())).expect("cargo metadata")
}

fn selection() -> TargetSelection {
    select_binary(&workspace(), Some("app"), None).expect("one binary")
}

#[test]
fn diagnostics_are_bounded_on_utf8_boundaries() {
    let mut diagnostics = BoundedDiagnostics::new();
    diagnostics.push(&"é".repeat(DIAGNOSTIC_LIMIT));
    assert!(diagnostics.text.len() <= DIAGNOSTIC_LIMIT);
    assert!(diagnostics.truncated);
    assert!(diagnostics.text.is_char_boundary(diagnostics.text.len()));
    assert_eq!(floor_char_boundary("é", 1), 0);
}

#[test]
fn diagnostics_never_grow_past_their_limit() {
    let mut diagnostics = BoundedDiagnostics::new();
    for _ in 0..3 {
        let chunk = StreamRead::Chunk(vec![b'x'; DIAGNOSTIC_LIMIT / 2]);
        assert!(drain_bounded(&mut diagnostics, &chunk));
        assert!(diagnostics.text.len() <= DIAGNOSTIC_LIMIT);
    }
    assert!(diagnostics.truncated);
    assert!(!drain_bounded(&mut diagnostics, &StreamRead::Ended));
}

#[test]
fn metadata_is_read_through_cargo_metadata() {
    let workspace = workspace();
    assert_eq!(workspace.root, b"/w".to_vec());
    assert_eq!(workspace.packages.len(), 2);
    assert_eq!(workspace.packages[0].name, "app");
    assert_eq!(workspace.packages[0].targets.len(), 2);
    assert!(workspace.packages[0].targets[0].binary);
    assert!(!workspace.packages[0].targets[1].binary);
    assert_eq!(workspace_lockfile_path(&workspace), b"/w/Cargo.lock".to_vec());
    assert!(read_metadata(&MetadataProbe::NotStarted).is_err());
    assert!(read_metadata(&MetadataProbe::Failed(b"boom".to_vec())).is_err());
    assert!(read_metadata(&MetadataProbe::Printed(b"{".to_vec())).is_err());
}

#[test]
fn one_binary_is_selected_or_none() {
    let workspace = workspace();
    let app = select_binary(&workspace, Some("app"), None).expect("one binary");
    assert_eq!(app.package_name, "app");
    assert_eq!(app.binary_name, "app");
    assert_eq!(app.workspace_root, b"/w".to_vec());
    assert_eq!(
        select_binary(&workspace, None, Some("tool")).expect("named").binary_name,
        "tool"
    );
    assert!(select_binary(&workspace, None, None).is_err());
    assert!(select_binary(&workspace, Some("absent"), None).is_err());
    assert!(select_binary(&workspace, Some("app"), Some("applib")).is_err());
}

#[test]
fn the_workspace_lockfile_must_be_the_one_that_was_hashed() {
    let workspace = workspace();
    let lockfile = Some(b"/w/Cargo.lock".to_vec());
    assert!(resolve_target(&workspace, &lockfile, b"/w/Cargo.lock", Some("app"), None).is_ok());
    assert!(resolve_target(&workspace, &lockfile, b"/other/Cargo.lock", Some("app"), None).is_err());
    assert!(resolve_target(&workspace, &None, b"/w/Cargo.lock", Some("app"), None).is_err());
}

#[test]
fn builds_are_invoked_with_their_own_target_directory() {
    let plan = BuildPlan::candidate(Strategy::ThinLto, b"/run/target");
    let words = build_arguments(&selection(), &plan);
    let shown: Vec<String> = words
        .iter()
        .map(|word| String::from_utf8_lossy(word).into_owned())
        .collect();
    assert!(shown.contains(&"/run/target/thin-lto".to_owned()));
    assert!(shown.contains(&"profile.release.lto=\"thin\"".to_owned()));
    assert!(shown.contains(&"--locked".to_owned()));
    let invocation = planned_invocation(&selection(), &plan);
    assert_eq!(invocation.strategy, Strategy::ThinLto);
    assert_eq!(invocation.cargo_arguments, shown);
    assert_eq!(invocation.target_directory, b"/run/target/thin-lto".to_vec());
}

const ARTIFACT: &str = r#"{"reason":"compiler-artifact","package_id":"path+file:///w/app#0.1.0","manifest_path":"/w/app/Cargo.toml","target":{"kind":["bin"],"crate_types":["bin"],"name":"app","src_path":"/w/app/src/main.rs","edition":"2021","doc":true,"doctest":false,"test":true},"profile":{"opt_level":"3","debuginfo":0,"debug_assertions":false,"overflow_checks":false,"test":false},"features":[],"filenames":["/run/target/baseline/release/app"],"executable":"/run/target/baseline/release/app","fresh":false}"#;

fn ended(progress: BuildProgress, success: bool) -> Result<temper::cargo::EndedBuild, BuildFailure> {
    let plan = BuildPlan::baseline(b"/run/target");
    end_build(
        planned_invocation(&selection(), &plan),
        progress,
        &selection(),
        BuildEnd { wait: Ok(success), stderr: Some(BoundedDiagnostics::new()) },
        &None,
    )
}

fn facts(path: &str) -> ExecutableFacts {
    ExecutableFacts {
        canonical: Ok(path.as_bytes().to_vec()),
        canonical_target: Ok(b"/run/target/baseline".to_vec()),
        size_bytes: Ok(7),
        sha256: Ok("digest".to_owned()),
    }
}

#[test]
fn an_accepted_build_names_its_one_executable() {
    let mut progress = BuildProgress::new();
    assert!(progress.note_line(&selection(), ARTIFACT.as_bytes()));
    assert!(progress.note_line(&selection(), br#"{"reason":"build-finished","success":true}"#));
    assert_eq!(progress.executables, vec![b"/run/target/baseline/release/app".to_vec()]);
    let ended = ended(progress, true).expect("one executable");
    let build = accept_build(ended, facts("/run/target/baseline/release/app"), None, 12)
        .expect("accepted build");
    assert_eq!(build.executable_path, b"/run/target/baseline/release/app".to_vec());
    assert_eq!(build.size_bytes, 7);
    assert_eq!(build.build_duration_ms, 12);
}

#[test]
fn builds_outside_their_directory_are_refused() {
    let mut progress = BuildProgress::new();
    progress.note_line(&selection(), ARTIFACT.as_bytes());
    let ended = ended(progress, true).expect("one executable");
    let failure = accept_build(ended, facts("/elsewhere/app"), None, 12)
        .expect_err("outside the target directory");
    assert_eq!(failure.reason, BUILD_FAILED_REASON);
}

#[test]
fn failed_and_ambiguous_builds_are_refused() {
    let failed = ended(BuildProgress::new(), false).expect_err("nonzero status");
    assert_eq!(failed.reason, BUILD_FAILED_REASON);
    assert!(ended(BuildProgress::new(), true).is_err());
    let mut twice = BuildProgress::new();
    twice.note_line(&selection(), ARTIFACT.as_bytes());
    twice.note_line(&selection(), ARTIFACT.replace("release/app", "release/two").as_bytes());
    assert!(ended(twice, true).is_err());
}
