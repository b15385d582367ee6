use temper::cli::{
    parse_minimum_improvement, parse_outcome, strip_subcommand, OptimizeArgs, ParseOutcome,
    DEFAULT_TIMEOUT_SECONDS,
};

fn arguments(values: &[&str]) -> Vec<Vec<u8>> {
    values.iter().map(|value| value.as_bytes().to_vec()).collect()
}

/// The arguments of `optimize`, with the workload that follows the double dash.
fn parsed(values: &[Vec<u8>]) -> Option<OptimizeArgs> {
    if values.get(1).map(Vec::as_slice) != Some(b"optimize".as_slice()) {
        return None;
    }
    let workload = values
        .iter()
        .skip_while(|value| value.as_slice() != b"--")
        .skip(1)
        .cloned()
        .collect();
    Some(OptimizeArgs {
        manifest_path: b"Cargo.toml".to_vec(),
        package: None,
        binary: None,
        target: None,
        minimum_improvement: 2.0_f64.to_bits(),
        timeout: DEFAULT_TIMEOUT_SECONDS,
        allow_dirty: false,
        json: false,
        workload,
    })
}

#[test]
fn accepts_cargo_supplied_subcommand_name() {
    let stripped = strip_subcommand(arguments(&[
        "cargo-temper",
        "temper",
        "optimize",
        "--",
        "/bin/true",
    ]));
    let outcome = parse_outcome(parsed(&stripped));
    assert!(matches!(outcome, ParseOutcome::Optimize(_)));
}

#[test]
fn rejects_a_missing_workload_before_execution() {
    let stripped = strip_subcommand(arguments(&["cargo-temper", "optimize"]));
    let outcome = parse_outcome(parsed(&stripped));
    assert!(matches!(outcome, ParseOutcome::MissingWorkload));
}

#[test]
fn refused_command_lines_stay_refused() {
    let stripped = strip_subcommand(arguments(&["cargo-temper", "unknown"]));
    assert!(matches!(parse_outcome(parsed(&stripped)), ParseOutcome::Refused));
    assert_eq!(strip_subcommand(arguments(&["cargo-temper"])).len(), 1);
}

#[test]
fn the_minimum_improvement_is_a_percentage_below_a_hundred() {
    for value in [0.0_f64, 0.5, 2.0, 99.999] {
        assert_eq!(parse_minimum_improvement(Some(value.to_bits())), Ok(value.to_bits()));
    }
    for value in [100.0_f64, -1.0, f64::NAN, f64::INFINITY] {
        assert!(parse_minimum_improvement(Some(value.to_bits())).is_err(), "{value}");
    }
    assert!(parse_minimum_improvement(Some((-0.0_f64).to_bits())).is_ok());
    assert!(parse_minimum_improvement(None).is_err());
}
