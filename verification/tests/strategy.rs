use temper::interposition::{
    Injection, InterpositionPlan, ShimStage, ShimTools, MISSING_FUNCTION_FLAG,
    PROFILE_GENERATE_FLAG, PROFILE_USE_FLAG,
};
use temper::phases::{
    compare_phase_inputs, normalized_cargo_arguments, ConfigSourceRecord, PgoParityRecord,
    PgoPhaseInputs, ToolIdentity,
};
use temper::prerequisites::{
    ambient_override, inspect_config_sources, llvm_profdata_candidate, rustc_target_libdir,
    tool_version, ConfigProbe, ToolProbe,
};
use temper::interposition::variable;
use temper::hash::{sha256_file, FileRead};
use temper::strategy::{
    lowest_median_strategy, selected_candidate, strategy_order, BuildPlan, BuildStage, Strategy,
};

const ROOT: &[u8] = b"/run/target";

#[test]
fn fixed_strategies_have_canonical_overrides_and_directories() {
    let baseline = BuildPlan::baseline(ROOT);
    assert_eq!(baseline.target_directory, b"/run/target/baseline".to_vec());
    assert!(baseline.cargo_config_overrides.is_empty());
    assert!(matches!(baseline.stage, BuildStage::Baseline));
    assert!(baseline.interposition.is_none());

    let thin = BuildPlan::candidate(Strategy::ThinLto, ROOT);
    assert_eq!(thin.target_directory, b"/run/target/thin-lto".to_vec());
    assert_eq!(thin.cargo_config_overrides, ["profile.release.lto=\"thin\""]);

    let fat = BuildPlan::candidate(Strategy::FatLtoCgu1, ROOT);
    assert_eq!(fat.target_directory, b"/run/target/fat-lto-cgu1".to_vec());
    assert_eq!(
        fat.cargo_config_overrides,
        ["profile.release.lto=\"fat\"", "profile.release.codegen-units=1"]
    );

    let confirmation = BuildPlan::confirmation(
        Strategy::FatLtoCgu1,
        ROOT,
        fat.cargo_config_overrides.clone(),
        None,
    );
    assert_eq!(
        confirmation.target_directory,
        b"/run/target/confirmation/fat-lto-cgu1".to_vec()
    );
    assert!(matches!(confirmation.stage, BuildStage::Confirmation));
    assert!(confirmation.interposition.is_none());
    assert_eq!(confirmation.cargo_config_overrides, fat.cargo_config_overrides);
}

#[test]
fn selection_is_deterministic_and_baseline_can_seed_pgo() {
    let measurements =
        [(Strategy::ThinLto, 110), (Strategy::Baseline, 100), (Strategy::FatLtoCgu1, 105)];
    assert_eq!(lowest_median_strategy(&measurements), Some(Strategy::Baseline));
    assert_eq!(selected_candidate(&measurements), Some(Strategy::FatLtoCgu1));
}

#[test]
fn equal_medians_are_decided_by_the_strategy_order() {
    let measurements = [(Strategy::Pgo, 100), (Strategy::FatLtoCgu1, 100), (Strategy::ThinLto, 100)];
    assert_eq!(lowest_median_strategy(&measurements), Some(Strategy::ThinLto));
    assert_eq!(selected_candidate(&[(Strategy::Baseline, 1)]), None);
    assert_eq!(lowest_median_strategy(&[]), None);
    assert_eq!(strategy_order(Strategy::Pgo), 3);
    let static_candidates = Strategy::static_candidates();
    assert_eq!(static_candidates, [Strategy::ThinLto, Strategy::FatLtoCgu1]);
    assert_eq!(Strategy::Pgo.canonical_identity(), "pgo");
}

/// Reads one configuration file.
fn config_probe(contents: &str) -> ConfigProbe {
    let read = FileRead::Contents(contents.as_bytes().to_vec());
    ConfigProbe {
        path: b"/fixture/.cargo/config.toml".to_vec(),
        contents: Ok(contents.to_owned()),
        sha256: sha256_file(b"/fixture/.cargo/config.toml", &read)
            .map_err(|error| error.message().to_owned()),
    }
}

#[test]
fn config_inspection_records_sources_without_reconstructing_rustflags() {
    // Every shape of rustflags stays with Cargo.
    let contents = "[build]\nrustflags = [\"--cfg\", \"build_flag\"]\n\n[target.x86_64-unknown-linux-gnu]\nrustflags = '--cfg \"quoted label\"'\n\n[target.'cfg(unix)']\nrustflags = [\"--cfg\", \"cfg_flag\"]\n";
    let sources =
        inspect_config_sources(&vec![config_probe(contents)]).expect("rustflags stay with Cargo");
    assert_eq!(sources.len(), 1);
    assert_eq!(sources[0].path, b"/fixture/.cargo/config.toml".to_vec());
    assert_eq!(sources[0].sha256.len(), 64);
}

#[test]
fn config_inspection_rejects_every_declared_compiler_override() {
    for key in ["rustc", "rustc-wrapper", "rustc-workspace-wrapper"] {
        let contents = format!("[build]\n{key} = \"/other/compiler\"\n");
        let error = inspect_config_sources(&vec![config_probe(&contents)])
            .expect_err("compiler override fails closed");
        assert_eq!(error.reason, "unproven_compiler_override");
        assert!(error.message.contains(&format!("build.{key}")));
    }
}

#[test]
fn unreadable_configurations_are_refused() {
    let mut unread = config_probe("");
    unread.contents = Err("denied".to_owned());
    assert!(inspect_config_sources(&vec![unread]).is_err());
    let malformed = inspect_config_sources(&vec![config_probe("[build")]).expect_err("malformed");
    assert_eq!(malformed.reason, "cargo_config_parse_failed");
}

#[test]
fn ambient_compiler_overrides_are_noticed() {
    assert_eq!(ambient_override(&vec![]), None);
    assert!(ambient_override(&vec![variable("RUSTC_WRAPPER", b"/sccache")]).is_some());
    assert!(ambient_override(&vec![variable("PATH", b"/bin")]).is_none());
    assert_eq!(
        tool_version(&ToolProbe::Printed(b"cargo 1.97.1\n".to_vec()), "cargo"),
        Ok("cargo 1.97.1".to_owned())
    );
    assert!(tool_version(&ToolProbe::NotStarted, "cargo").is_err());
    assert!(tool_version(&ToolProbe::Failed, "cargo").is_err());
    let libdir = rustc_target_libdir(
        &ToolProbe::Printed(b"/tc/lib/rustlib/x86_64-unknown-linux-gnu/lib\n".to_vec()),
        &Ok(b"/tc/lib/rustlib/x86_64-unknown-linux-gnu/lib".to_vec()),
    )
    .expect("libdir");
    assert_eq!(
        llvm_profdata_candidate(&libdir),
        Some(b"/tc/lib/rustlib/x86_64-unknown-linux-gnu/bin/llvm-profdata".to_vec())
    );
}

#[test]
fn interposed_pgo_plans_own_no_rustflags_channel() {
    let plan = BuildPlan::pgo(
        Strategy::ThinLto,
        BuildStage::PgoInstrumentation,
        interposition_plan(ShimStage::Generate, Injection::Generate(b"/run/pgo/raw".to_vec())),
    );
    assert_eq!(plan.cargo_config_overrides, ["profile.release.lto=\"thin\""]);
    let interposition = plan.interposition.expect("interposed stage");
    assert_eq!(plan.target_directory, interposition.target_directory);
    assert_eq!(interposition.record().injected_flags, [PROFILE_GENERATE_FLAG]);
}

#[test]
fn parity_allows_only_phase_differences_and_names_every_other_field() {
    let mut parity = parity_record(
        Some(parity_inputs(ShimStage::Generate)),
        Some(parity_inputs(ShimStage::Use)),
    );
    parity.decide();
    assert!(parity.matched);
    assert!(parity.unexpected_differences.is_empty());

    let mut changed = parity_inputs(ShimStage::Use);
    changed.package_id = "changed-package".to_owned();
    changed.binary_target = "changed-binary".to_owned();
    changed.target_triple = "changed-target";
    changed.cargo_arguments.push("--changed".to_owned());
    changed.base_profile_overrides.push("profile.release.debug=1".to_owned());
    changed.config_sources[0].sha256 = "changed-config-hash".to_owned();
    changed.cargo_identity = "changed-cargo".to_owned();
    changed.rustc_identity = "changed-rustc".to_owned();
    changed.llvm_profdata_identity.llvm_profdata_sha256 = "changed-profdata".to_owned();
    changed.real_rustc = b"/other/rustc".to_vec();
    changed.shim_executable = b"/other/cargo-temper".to_vec();
    changed.injected_flags = vec![PROFILE_GENERATE_FLAG];
    let mut parity = parity_record(Some(parity_inputs(ShimStage::Generate)), Some(changed));
    parity.decide();
    assert_eq!(
        parity.unexpected_differences,
        [
            "package_id",
            "binary_target",
            "target_triple",
            "cargo_arguments",
            "base_profile_overrides",
            "config_sources",
            "cargo_identity",
            "rustc_identity",
            "llvm_profdata_identity",
            "real_rustc",
            "shim_executable",
            "pgo_injection_channel",
        ]
    );
}

#[test]
fn parity_can_never_match_without_both_phases() {
    let mut empty = parity_record(None, None);
    empty.decide();
    assert!(!empty.matched);
    assert_eq!(empty.unexpected_differences, ["instrumentation_inputs_unavailable"]);

    let mut instrumentation_only = parity_record(Some(parity_inputs(ShimStage::Generate)), None);
    instrumentation_only.decide();
    assert!(!instrumentation_only.matched);
    assert_eq!(
        instrumentation_only.unexpected_differences,
        ["optimization_inputs_unavailable"]
    );
}

#[test]
fn target_directories_are_no_phase_difference() {
    let words = |values: &[&str]| -> Vec<String> {
        values.iter().map(|value| (*value).to_owned()).collect()
    };
    assert_eq!(
        normalized_cargo_arguments(&words(&["build", "--target-dir", "/a", "--locked"])),
        normalized_cargo_arguments(&words(&["build", "--target-dir", "/b", "--locked"]))
    );
    assert!(compare_phase_inputs(
        &parity_inputs(ShimStage::Generate),
        &parity_inputs(ShimStage::Use)
    )
    .is_empty());
}

fn parity_record(
    instrumentation: Option<PgoPhaseInputs>,
    optimization: Option<PgoPhaseInputs>,
) -> PgoParityRecord {
    let mut record = PgoParityRecord::pending();
    record.instrumentation = instrumentation;
    record.optimization = optimization;
    record
}

fn interposition_plan(stage: ShimStage, injection: Injection) -> InterpositionPlan {
    InterpositionPlan {
        stage,
        tools: ShimTools {
            shim_executable: b"/toolchain/cargo-temper".to_vec(),
            shim_sha256: "shim hash".to_owned(),
            real_rustc: b"/toolchain/rustc".to_vec(),
            real_rustc_version: "rustc identity".to_owned(),
        },
        run_root: b"/run".to_vec(),
        target_directory: format!("/run/target/{}", stage.label()).into_bytes(),
        capture_directory: format!("/run/captures/{}", stage.label()).into_bytes(),
        injection,
    }
}

fn parity_inputs(stage: ShimStage) -> PgoPhaseInputs {
    let injection = match stage {
        ShimStage::Generate => Injection::Generate(b"/run/pgo/raw".to_vec()),
        _ => Injection::Use(b"/run/pgo/merged.profdata".to_vec()),
    };
    let plan = interposition_plan(stage, injection);
    let tool_identity = ToolIdentity {
        cargo_version: "cargo identity".to_owned(),
        rustc_version: "rustc identity".to_owned(),
        llvm_profdata_path: b"/toolchain/llvm-profdata".to_vec(),
        llvm_profdata_sha256: "profdata hash".to_owned(),
        llvm_profdata_version: "llvm-profdata identity".to_owned(),
    };
    PgoPhaseInputs {
        package_id: "package 0.1.0 (path+file:///workspace)".to_owned(),
        binary_target: "binary".to_owned(),
        target_triple: "x86_64-unknown-linux-gnu",
        stage,
        cargo_arguments: vec![
            "build".to_owned(),
            "--target-dir".to_owned(),
            String::from_utf8_lossy(&plan.target_directory).into_owned(),
        ],
        base_profile_overrides: vec!["profile.release.lto=\"thin\"".to_owned()],
        config_sources: vec![ConfigSourceRecord {
            path: b"/workspace/.cargo/config.toml".to_vec(),
            sha256: "config hash".to_owned(),
        }],
        cargo_identity: tool_identity.cargo_version.clone(),
        rustc_identity: tool_identity.rustc_version.clone(),
        llvm_profdata_identity: tool_identity,
        real_rustc: plan.tools.real_rustc.clone(),
        shim_executable: plan.tools.shim_executable.clone(),
        injected_flags: match stage {
            ShimStage::Generate => vec![PROFILE_GENERATE_FLAG],
            _ => vec![PROFILE_USE_FLAG, MISSING_FUNCTION_FLAG],
        },
        target_directory: plan.target_directory.clone(),
        capture_directory: plan.capture_directory.clone(),
    }
}
