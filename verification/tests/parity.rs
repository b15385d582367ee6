use temper::interposition::ShimStage;
use temper::parity::{
    decide_confirmation, decide_training, difference_class_labels, CompilerParityRecord,
    ParityScope, StageInputs, UnitInputs, DIFFERENCE_LIMIT, MISMATCH_REASON,
};

fn unit(name: &str, metadata: &str, arguments: &[&str]) -> UnitInputs {
    UnitInputs {
        crate_name: name.to_owned(),
        metadata: Some(metadata.to_owned()),
        crate_types: vec!["lib".to_owned()],
        extra_filename: Some(format!("-{metadata}")),
        argument_digests: arguments.iter().map(|value| (*value).to_owned()).collect(),
        normalized_digest: arguments.join("+"),
    }
}

fn stage(stage: ShimStage) -> StageInputs {
    StageInputs {
        stage,
        real_rustc: b"/toolchain/rustc".to_vec(),
        real_rustc_version: "rustc 1.97.1".to_owned(),
        shim_sha256: "shim-hash".to_owned(),
        capture_digest: format!("capture-{}", stage.label()),
        record_count: 4,
        units: vec![unit("app", "aaaa", &["a1", "a2", "a3"]), unit("lib", "bbbb", &["b1", "b2"])],
    }
}

fn training(mutate: impl FnOnce(&mut StageInputs)) -> CompilerParityRecord {
    let mut optimization = stage(ShimStage::Use);
    mutate(&mut optimization);
    decide_training(
        Some(stage(ShimStage::Reference)),
        Some(stage(ShimStage::Generate)),
        Some(optimization),
    )
}

#[test]
fn identical_observed_inputs_match_across_all_three_stages() {
    let parity = training(|_| {});
    assert!(parity.matched);
    assert!(parity.reason.is_none());
    assert!(parity.differences.is_empty());
    assert_eq!(parity.scope, ParityScope::PgoTraining);
    assert_eq!(parity.stages.len(), 3);
    // The normalized aggregate is content-keyed, so every stage agrees.
    let digests: Vec<&str> = parity
        .stages
        .iter()
        .map(|summary| summary.normalized_aggregate_digest.as_str())
        .collect();
    assert!(digests.windows(2).all(|pair| pair[0] == pair[1]));
    assert_eq!(parity.stages[0].target_compilations, 2);
}

#[test]
fn record_order_alone_is_not_a_difference() {
    let parity = training(|optimization| optimization.units.reverse());
    assert!(parity.matched, "{:?}", parity.differences);
}

#[test]
fn every_adversarial_mutation_rejects_with_its_bounded_class() {
    let mutations: [(&str, &str, fn(&mut StageInputs)); 11] = [
        ("argument added", "argument_added", |stage| {
            stage.units[0].argument_digests.push("extra".to_owned());
        }),
        ("argument removed", "argument_removed", |stage| {
            stage.units[0].argument_digests.pop();
        }),
        ("argument changed", "argument_added", |stage| {
            stage.units[0].argument_digests[1] = "changed".to_owned();
        }),
        ("argument reordered", "argument_order", |stage| {
            stage.units[0].argument_digests.reverse();
        }),
        ("argument duplicated", "argument_count", |stage| {
            let first = stage.units[0].argument_digests[0].clone();
            stage.units[0].argument_digests.push(first);
        }),
        ("crate added", "crate_added", |stage| {
            stage.units.push(unit("extra", "cccc", &["c1"]));
        }),
        ("crate removed", "crate_missing", |stage| {
            stage.units.pop();
        }),
        ("crate renamed", "crate_added", |stage| {
            stage.units[0].crate_name = "renamed".to_owned();
        }),
        ("target kind changed", "crate_kind_changed", |stage| {
            stage.units[0].crate_types = vec!["bin".to_owned()];
        }),
        ("artifact identity changed", "artifact_metadata_changed", |stage| {
            stage.units[0].metadata = Some("mutated".to_owned());
        }),
        ("tool path changed", "tool_changed", |stage| {
            stage.real_rustc = b"/other/rustc".to_vec();
        }),
    ];
    let known = difference_class_labels();
    for (label, expected, mutate) in mutations {
        let parity = training(mutate);
        assert!(!parity.matched, "{label} matched");
        assert_eq!(parity.reason, Some(MISMATCH_REASON), "{label}");
        assert!(
            parity.difference_classes().iter().any(|class| class == expected),
            "{label} reported {:?} instead of {expected}",
            parity.difference_classes()
        );
        // Every reported class stays inside the closed bounded set.
        assert!(
            parity.difference_classes().iter().all(|class| known.contains(&class.as_str())),
            "{label} reported an unbounded class"
        );
    }
}

#[test]
fn a_duplicate_crate_identity_is_not_comparable() {
    let parity = training(|stage| {
        let duplicate = stage.units[0].clone();
        stage.units.push(duplicate);
    });
    assert!(!parity.matched);
    assert!(parity
        .difference_classes()
        .iter()
        .any(|class| class == "ambiguous_crate_identity"));
}

#[test]
fn an_incomplete_comparison_can_never_match() {
    for parity in [
        decide_training(None, Some(stage(ShimStage::Generate)), Some(stage(ShimStage::Use))),
        decide_training(Some(stage(ShimStage::Reference)), None, Some(stage(ShimStage::Use))),
        decide_training(Some(stage(ShimStage::Reference)), Some(stage(ShimStage::Generate)), None),
        decide_confirmation(Some(stage(ShimStage::Use)), None),
        decide_confirmation(None, None),
    ] {
        assert!(!parity.matched);
        assert_eq!(parity.reason, Some(MISMATCH_REASON));
        assert!(parity
            .difference_classes()
            .iter()
            .any(|class| class == "evidence_unavailable"));
    }
}

#[test]
fn confirmation_parity_compares_the_accepted_use_stage() {
    let parity =
        decide_confirmation(Some(stage(ShimStage::Use)), Some(stage(ShimStage::Confirmation)));
    assert!(parity.matched);
    assert_eq!(parity.scope, ParityScope::PgoConfirmation);
    assert_eq!(parity.stages.len(), 2);
}

#[test]
fn truncated_comparisons_keep_their_reason() {
    let parity = training(|stage| {
        for index in 0..(DIFFERENCE_LIMIT + 10) {
            stage.units.push(unit(&format!("extra{index}"), "dddd", &["d1"]));
        }
    });
    assert!(!parity.matched);
    assert!(parity.differences_truncated);
    assert_eq!(parity.differences.len(), DIFFERENCE_LIMIT);
    assert_eq!(parity.reason, Some(MISMATCH_REASON));
    assert!(parity.affected_crate().is_some());
}
