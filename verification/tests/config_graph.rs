use temper::config_graph::{
    cargo_home, environment_inputs, list_ancestors, parse_minor, scan, stable_source, Attempt,
    CanonicalFact, ConfigFacts, ConfigGraph, ConfigGraphFailure, ConfigSource, Discovery, Need,
    Presence, RegularFact, SourceFact, SourceRead, COMPILER_OVERRIDE_REASON, INCLUDE_CYCLE_REASON,
    INCLUDE_MALFORMED_REASON, INCLUDE_MISSING_REASON, INCLUDE_UNSUPPORTED_REASON, MUTATED_REASON,
    PARSE_REASON,
};
use temper::interposition::{variable, Variable};

const CARGO_194: &str = "cargo 1.97.1 (c980f4866 2026-06-30)\nrelease: 1.97.1";
const CARGO_193: &str = "cargo 1.93.1 (083ac5135 2025-12-15)\nrelease: 1.93.1";

const ROOT: &str = "/fixture";

/// Answers what a scan asks about the files of the fixture.
fn scan_with(
    files: &[(&str, &str)],
    variables: &Vec<Variable>,
    version: &str,
) -> Result<ConfigGraph, ConfigGraphFailure> {
    let contents = |path: &[u8]| {
        files
            .iter()
            .find(|(name, _)| format!("{ROOT}/.cargo/{name}").as_bytes() == path)
            .map(|(_, text)| text.as_bytes().to_vec())
    };
    let mut facts = ConfigFacts { regular: vec![], canonical: vec![], sources: vec![] };
    loop {
        match scan(&facts, variables, ROOT.as_bytes(), version) {
            Attempt::Done(graph) => return Ok(graph),
            Attempt::Refused(failure) => return Err(failure),
            Attempt::Needs(Need::Regular(path)) => {
                let regular = contents(&path).is_some();
                facts.regular.push(RegularFact { path, regular });
            }
            Attempt::Needs(Need::Canonical(path)) => {
                let canonical = match contents(&path) {
                    Some(_) => Ok(path.clone()),
                    None => Err("No such file or directory (os error 2)".to_owned()),
                };
                facts.canonical.push(CanonicalFact { path, canonical });
            }
            Attempt::Needs(Need::Source(path)) => {
                let bytes = contents(&path).expect("a listed file");
                let read = |bytes: &Vec<u8>| SourceRead {
                    status: Ok((true, bytes.len() as u64)),
                    contents: Ok(bytes.clone()),
                };
                facts.sources.push(SourceFact { path, first: read(&bytes), second: read(&bytes) });
            }
        }
    }
}

fn scan_files(files: &[(&str, &str)], version: &str) -> Result<ConfigGraph, ConfigGraphFailure> {
    scan_with(files, &vec![], version)
}

fn graph(files: &[(&str, &str)], version: &str) -> ConfigGraph {
    scan_files(files, version).expect("config graph")
}

fn names(sources: &[ConfigSource]) -> Vec<String> {
    sources
        .iter()
        .map(|source| String::from_utf8_lossy(&source.path).into_owned())
        .map(|path| path.rsplit('/').next().unwrap_or("").to_owned())
        .collect()
}

#[test]
fn includes_load_left_to_right_before_the_including_file() {
    let graph = graph(
        &[
            ("config.toml", "include = [\"first.toml\", \"second.toml\"]\n"),
            ("first.toml", "include = [\"nested.toml\"]\n"),
            ("nested.toml", "[build]\nrustflags = [\"--cfg\", \"nested\"]\n"),
            ("second.toml", "[build]\njobs = 1\n"),
        ],
        CARGO_194,
    );
    let sources = &graph.sources;
    assert_eq!(names(sources), ["nested.toml", "first.toml", "second.toml", "config.toml"]);
    assert!(graph.declares_include);
    assert!(sources.iter().all(|source| source.sha256.len() == 64));

    let including = sources.last().expect("including file");
    assert_eq!(including.discovery, Discovery::Ancestor);
    assert_eq!(including.includes.len(), 2);
    assert!(including.includes.iter().all(|edge| edge.present));
    // Every include path resolves against the including file's directory.
    assert_eq!(including.includes[0].resolved, b"/fixture/.cargo/first.toml".to_vec());
    assert_eq!(sources[1].discovery, Discovery::Include);
}

#[test]
fn a_missing_optional_include_is_recorded_without_failure() {
    let graph = graph(
        &[("config.toml", "include = [{ path = \"absent.toml\", optional = true }]\n")],
        CARGO_194,
    );
    let edge = &graph.sources.last().expect("config").includes[0];
    assert!(edge.optional);
    assert!(!edge.present);
    assert_eq!(edge.declared, "absent.toml");
}

#[test]
fn every_unsupported_include_shape_fails_closed() {
    let cases: [(&str, &str, &str); 5] = [
        ("missing required", "include = [\"absent.toml\"]\n", INCLUDE_MISSING_REASON),
        ("bare string", "include = \"single.toml\"\n", INCLUDE_MALFORMED_REASON),
        ("non-toml path", "include = [\"flags.txt\"]\n", INCLUDE_MALFORMED_REASON),
        ("pattern path", "include = [\"flags-*.toml\"]\n", INCLUDE_MALFORMED_REASON),
        (
            "unsupported table key",
            "include = [{ path = \"a.toml\", required = true }]\n",
            INCLUDE_MALFORMED_REASON,
        ),
    ];
    for (label, contents, expected) in cases {
        let failure = scan_files(&[("config.toml", contents)], CARGO_194).expect_err(label);
        assert_eq!(failure.reason, expected, "{label}");
        assert!(failure.source.is_some(), "{label} names no source");
    }
}

#[test]
fn an_include_cycle_is_rejected_instead_of_partially_accepted() {
    let failure = scan_files(
        &[
            ("config.toml", "include = [\"a.toml\"]\n"),
            ("a.toml", "include = [\"b.toml\"]\n"),
            ("b.toml", "include = [\"a.toml\"]\n"),
        ],
        CARGO_194,
    )
    .expect_err("cycle");
    assert_eq!(failure.reason, INCLUDE_CYCLE_REASON);
}

#[test]
fn stable_include_below_cargo_194_is_a_version_boundary() {
    let failure = scan_files(
        &[
            ("config.toml", "include = [\"flags.toml\"]\n"),
            ("flags.toml", "[build]\njobs = 1\n"),
        ],
        CARGO_193,
    )
    .expect_err("version boundary");
    assert_eq!(failure.reason, INCLUDE_UNSUPPORTED_REASON);

    // A configuration without an inclusion keeps the prior supported boundary.
    let graph = graph(&[("config.toml", "[build]\njobs = 1\n")], CARGO_193);
    assert!(!graph.include_supported);
    assert!(!graph.declares_include);
    assert_eq!(graph.cargo_minor, 93);
}

#[test]
fn a_compiler_override_is_detected_through_the_include_graph() {
    for key in ["rustc", "rustc-wrapper", "rustc-workspace-wrapper"] {
        let compiler = format!("[build]\n{key} = \"/other/compiler\"\n");
        let failure = scan_files(
            &[("config.toml", "include = [\"compiler.toml\"]\n"), ("compiler.toml", &compiler)],
            CARGO_194,
        )
        .expect_err(key);
        assert_eq!(failure.reason, COMPILER_OVERRIDE_REASON);
        assert!(failure.message.contains(&format!("build.{key}")));
        assert!(
            failure.source.as_ref().is_some_and(|source| source.ends_with(b"/compiler.toml")),
            "{key} did not name the included source"
        );
    }
}

#[test]
fn a_source_that_changes_between_reads_is_not_hashed_as_stable() {
    let path = b"/workspace/.cargo/config.toml";
    let (contents, sha256) =
        stable_source(path, b"[build]\njobs = 1\n", b"[build]\njobs = 1\n").expect("stable source");
    assert_eq!(contents, "[build]\njobs = 1\n");
    assert_eq!(sha256.len(), 64);

    let failure = stable_source(path, b"[build]\njobs = 1\n", b"[build]\njobs = 2\n")
        .expect_err("mutated source");
    assert_eq!(failure.reason, MUTATED_REASON);
    assert_eq!(failure.source.as_deref(), Some(path.as_slice()));
}

#[test]
fn environment_inputs_distinguish_absence_from_an_empty_value() {
    let variables = vec![
        variable("RUSTFLAGS", b""),
        variable("CARGO_ENCODED_RUSTFLAGS", b"--cfg\x1fa"),
    ];
    let graph = scan_with(&[("config.toml", "[build]\njobs = 1\n")], &variables, CARGO_194)
        .expect("config graph");
    let inputs = &graph.environment_inputs;
    assert_eq!(inputs.len(), 12);
    assert!(inputs.iter().any(|input| input.name == "RUSTFLAGS"));
    assert!(inputs
        .iter()
        .any(|input| input.name == "CARGO_TARGET_X86_64_UNKNOWN_LINUX_GNU_RUSTFLAGS"));
    for input in inputs {
        match input.presence {
            Presence::Given => assert_eq!(input.sha256.as_deref().map(str::len), Some(64)),
            Presence::Absent | Presence::Empty => assert!(input.sha256.is_none()),
        }
    }
    let presence = |name: &str| {
        inputs.iter().find(|input| input.name == name).map(|input| input.presence)
    };
    assert_eq!(presence("RUSTFLAGS"), Some(Presence::Empty));
    assert_eq!(presence("CARGO_ENCODED_RUSTFLAGS"), Some(Presence::Given));
    assert_eq!(environment_inputs(&vec![]).len(), 12);
}

#[test]
fn cargo_minor_versions_parse_or_fail_closed() {
    assert_eq!(parse_minor(CARGO_194).expect("stable"), 97);
    assert_eq!(parse_minor("cargo 1.94.0-nightly (abc 2026-01-01)").expect("nightly"), 94);
    assert!(parse_minor("rustc 1.97.1").is_err());
    assert!(parse_minor("cargo 1").is_err());
}

#[test]
fn the_home_configuration_loads_before_the_ancestors() {
    assert_eq!(
        cargo_home(&vec![variable("CARGO_HOME", b"/home/cargo")], b"/w"),
        Some(b"/home/cargo".to_vec())
    );
    assert_eq!(
        cargo_home(&vec![variable("CARGO_HOME", b"relative")], b"/w"),
        Some(b"/w/relative".to_vec())
    );
    assert_eq!(
        cargo_home(&vec![variable("HOME", b"/home/me")], b"/w"),
        Some(b"/home/me/.cargo".to_vec())
    );
    assert_eq!(cargo_home(&vec![], b"/w"), None);
    let variables = vec![variable("CARGO_HOME", b"/fixture/.cargo")];
    let graph = scan_with(&[("config.toml", "[build]\njobs = 1\n")], &variables, CARGO_194)
        .expect("config graph");
    assert_eq!(graph.sources.len(), 1);
    assert_eq!(graph.sources[0].discovery, Discovery::CargoHome);
}

#[test]
fn ancestors_are_listed_from_the_path_upwards() {
    assert_eq!(
        list_ancestors(b"/a/b"),
        vec![b"/a/b".to_vec(), b"/a".to_vec(), b"/".to_vec()]
    );
}

#[test]
fn malformed_documents_are_refused() {
    let failure = scan_files(&[("config.toml", "[build\n")], CARGO_194).expect_err("malformed");
    assert_eq!(failure.reason, PARSE_REASON);
    assert!(parse_minor("cargo x.y").is_err());
}
