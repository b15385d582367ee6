//! Cargo configuration provenance.
//!
//! This module walks the Cargo configuration source graph, follows the stable `include`
//! recursion Cargo 1.94 introduced, hashes every source, and rejects a compiler override
//! declared anywhere in that graph. It records provenance only: it never merges configuration
//! values, never reconstructs effective rustflags and never becomes a second Cargo
//! configuration engine.
//!
//! It also records the compiler-input environment as bounded digests, so a changed `RUSTFLAGS`
//! or wrapper variable stays auditable without publishing its value.
//!
//! The walk reads the file system through [`ConfigFacts`]. Where a fact is missing it says which
//! one it needs next, so the caller observes exactly what the walk asks for.

use vstd::prelude::*;
use vstd::slice::slice_to_vec;
use vstd::string::*;
use vstd::utf8::*;

use crate::document::{
    entry_of, find_entry, get, read_document, toml_document, toml_view, TomlEntry, TomlValue,
    TomlView,
};
use crate::hash::{big_endian, is_hex_digit, push_framed, sha256_hex, sha256_text};
use crate::interposition::{variable_pairs, Variable};
use crate::paths::{join, join_path, lemma_spans, parent, parent_path, parts, same_path, spans};
use crate::shim::{find_value, value_of};
use crate::text::{
    byte_strings, characters, copy_byte_strings, find_letter, first_word, first_word_of,
    leading_number, leading_number_of, letter_place, lines, lines_of, lossy, lossy_text,
    optional_bytes, optional_text, same_bytes, same_text, strip_text, text2, text3, text5,
    text_after, texts, utf8_text,
};

verus! {

/// Cargo minor release that stabilized the top-level inclusion key.
pub const INCLUDE_STABLE_MINOR: u32 = 94;

pub const SOURCE_LIMIT: usize = 64;

pub const INCLUDE_DEPTH_LIMIT: usize = 16;

pub const SOURCE_BYTE_LIMIT: u64 = 1_048_576;

pub const DECLARED_LIMIT: usize = 256;

pub const VERSION_REASON: &'static str = "cargo_version_unrecognized";

pub const READ_REASON: &'static str = "cargo_config_read_failed";

pub const PARSE_REASON: &'static str = "cargo_config_parse_failed";

pub const MUTATED_REASON: &'static str = "cargo_config_source_mutated";

pub const LIMIT_REASON: &'static str = "cargo_config_source_limit";

pub const INCLUDE_MALFORMED_REASON: &'static str = "cargo_config_include_malformed";

pub const INCLUDE_MISSING_REASON: &'static str = "cargo_config_include_missing";

pub const INCLUDE_CYCLE_REASON: &'static str = "cargo_config_include_cycle";

pub const INCLUDE_UNSUPPORTED_REASON: &'static str = "cargo_config_include_unsupported_version";

pub const COMPILER_OVERRIDE_REASON: &'static str = "unproven_compiler_override";

/// The key under which a source lists the sources it pulls in.
pub const INCLUDE_KEY: &'static str = "include";

/// Every configuration-source reason the walk can produce. Reporting uses it to classify a
/// decision without matching diagnostic text.
pub open spec fn is_config_source_reason(reason: Seq<char>) -> bool {
    ||| reason == VERSION_REASON@
    ||| reason == READ_REASON@
    ||| reason == PARSE_REASON@
    ||| reason == MUTATED_REASON@
    ||| reason == LIMIT_REASON@
    ||| reason == INCLUDE_MALFORMED_REASON@
    ||| reason == INCLUDE_MISSING_REASON@
    ||| reason == INCLUDE_CYCLE_REASON@
    ||| reason == INCLUDE_UNSUPPORTED_REASON@
}

/// Whether a reason is one of the configuration-source reasons.
pub fn config_source_reason(reason: &str) -> (found: bool)
    ensures
        found == is_config_source_reason(reason@),
{
    same_text(reason, VERSION_REASON) || same_text(reason, READ_REASON) || same_text(
        reason,
        PARSE_REASON,
    ) || same_text(reason, MUTATED_REASON) || same_text(reason, LIMIT_REASON) || same_text(
        reason,
        INCLUDE_MALFORMED_REASON,
    ) || same_text(reason, INCLUDE_MISSING_REASON) || same_text(reason, INCLUDE_CYCLE_REASON)
        || same_text(reason, INCLUDE_UNSUPPORTED_REASON)
}

/// How one configuration source entered the graph.
#[derive(Clone, Copy, Debug, PartialEq, Eq, Structural)]
pub enum Discovery {
    CargoHome,
    Ancestor,
    Include,
}

/// One inclusion exactly as the including file declared it.
#[derive(Debug)]
pub struct IncludeEdge {
    pub declared: String,
    pub resolved: Vec<u8>,
    pub optional: bool,
    pub present: bool,
}

/// One inclusion, as sequences.
#[verifier::ext_equal]
pub struct EdgeView {
    pub declared: Seq<char>,
    pub resolved: Seq<u8>,
    pub optional: bool,
    pub present: bool,
}

impl View for IncludeEdge {
    type V = EdgeView;

    open spec fn view(&self) -> EdgeView {
        EdgeView {
            declared: self.declared@,
            resolved: self.resolved@,
            optional: self.optional,
            present: self.present,
        }
    }
}

/// The views of inclusions.
pub open spec fn edge_views(edges: Seq<IncludeEdge>) -> Seq<EdgeView> {
    edges.map_values(|edge: IncludeEdge| edge@)
}

/// One discovered Cargo configuration file.
#[derive(Debug)]
pub struct ConfigSource {
    pub path: Vec<u8>,
    pub sha256: String,
    pub discovery: Discovery,
    pub includes: Vec<IncludeEdge>,
}

/// One configuration file, as sequences.
#[verifier::ext_equal]
pub struct SourceView {
    pub path: Seq<u8>,
    pub sha256: Seq<char>,
    pub discovery: Discovery,
    pub includes: Seq<EdgeView>,
}

impl View for ConfigSource {
    type V = SourceView;

    open spec fn view(&self) -> SourceView {
        SourceView {
            path: self.path@,
            sha256: self.sha256@,
            discovery: self.discovery,
            includes: edge_views(self.includes@),
        }
    }
}

/// The views of configuration files.
pub open spec fn source_views(sources: Seq<ConfigSource>) -> Seq<SourceView> {
    sources.map_values(|source: ConfigSource| source@)
}

/// Whether a compiler-input variable was absent, empty or given. Cargo treats an empty wrapper as
/// unset, so the two cases must stay distinguishable.
#[derive(Clone, Copy, Debug, PartialEq, Eq, Structural)]
pub enum Presence {
    Absent,
    Empty,
    Given,
}

#[derive(Debug)]
pub struct EnvironmentInput {
    pub name: &'static str,
    pub presence: Presence,
    pub sha256: Option<String>,
}

/// One compiler-input variable, as sequences.
#[verifier::ext_equal]
pub struct EnvironmentView {
    pub name: Seq<char>,
    pub presence: Presence,
    pub sha256: Option<Seq<char>>,
}

impl View for EnvironmentInput {
    type V = EnvironmentView;

    open spec fn view(&self) -> EnvironmentView {
        EnvironmentView {
            name: self.name@,
            presence: self.presence,
            sha256: optional_text(self.sha256),
        }
    }
}

/// The views of compiler-input variables.
pub open spec fn environment_views(inputs: Seq<EnvironmentInput>) -> Seq<EnvironmentView> {
    inputs.map_values(|input: EnvironmentInput| input@)
}

/// The complete configuration source graph of one PGO attempt.
#[derive(Debug)]
pub struct ConfigGraph {
    pub cargo_minor: u32,
    pub include_supported: bool,
    pub declares_include: bool,
    /// Sources in Cargo's documented load order: every included file precedes the file that
    /// includes it, and includes load from left to right.
    pub sources: Vec<ConfigSource>,
    pub environment_inputs: Vec<EnvironmentInput>,
}

/// The configuration source graph, as sequences.
pub struct GraphView {
    pub cargo_minor: u32,
    pub include_supported: bool,
    pub declares_include: bool,
    pub sources: Seq<SourceView>,
    pub environment_inputs: Seq<EnvironmentView>,
}

impl View for ConfigGraph {
    type V = GraphView;

    open spec fn view(&self) -> GraphView {
        GraphView {
            cargo_minor: self.cargo_minor,
            include_supported: self.include_supported,
            declares_include: self.declares_include,
            sources: source_views(self.sources@),
            environment_inputs: environment_views(self.environment_inputs@),
        }
    }
}

#[derive(Debug)]
pub struct ConfigGraphFailure {
    pub reason: &'static str,
    pub message: String,
    pub source: Option<Vec<u8>>,
}

/// Why a configuration graph was refused, as sequences.
#[verifier::ext_equal]
pub struct GraphRefusal {
    pub reason: Seq<char>,
    pub message: Seq<char>,
    pub source: Option<Seq<u8>>,
}

impl View for ConfigGraphFailure {
    type V = GraphRefusal;

    open spec fn view(&self) -> GraphRefusal {
        GraphRefusal {
            reason: self.reason@,
            message: self.message@,
            source: optional_bytes(self.source),
        }
    }
}

/// A refusal that names one source.
pub open spec fn refusal_at(reason: Seq<char>, message: Seq<char>, path: Seq<u8>) -> GraphRefusal {
    GraphRefusal { reason, message, source: Some(path) }
}

fn failure_at(reason: &'static str, message: String, path: &[u8]) -> (failure: ConfigGraphFailure)
    ensures
        failure@ == refusal_at(reason@, message@, path@),
{
    ConfigGraphFailure { reason, message, source: Some(slice_to_vec(path)) }
}

/// The message `Cargo config {path}{detail}`.
pub open spec fn config_message(path: Seq<u8>, detail: Seq<char>) -> Seq<char> {
    "Cargo config "@ + lossy_text(path) + detail
}

fn write_config_message(path: &[u8], detail: &str) -> (message: String)
    ensures
        message@ == config_message(path@, detail@),
{
    text3("Cargo config ", lossy(path).as_str(), detail)
}

// What the walk knows of the file system.

/// What one read of a source gave.
#[derive(Debug)]
pub struct SourceRead {
    /// Whether it is a regular file, and its length; or why it cannot be inspected.
    pub status: Result<(bool, u64), String>,
    /// Its bytes, or why they cannot be read.
    pub contents: Result<Vec<u8>, String>,
}

/// Whether a path names a regular file.
#[derive(Debug)]
pub struct RegularFact {
    pub path: Vec<u8>,
    pub regular: bool,
}

/// Where a path leads.
#[derive(Debug)]
pub struct CanonicalFact {
    pub path: Vec<u8>,
    pub canonical: Result<Vec<u8>, String>,
}

/// Two reads of one source.
#[derive(Debug)]
pub struct SourceFact {
    pub path: Vec<u8>,
    pub first: SourceRead,
    pub second: SourceRead,
}

/// What has been observed of the file system.
#[derive(Debug)]
pub struct ConfigFacts {
    pub regular: Vec<RegularFact>,
    pub canonical: Vec<CanonicalFact>,
    pub sources: Vec<SourceFact>,
}

/// The observation that the walk needs next.
#[derive(Debug)]
pub enum Need {
    Regular(Vec<u8>),
    Canonical(Vec<u8>),
    Source(Vec<u8>),
}

/// The observation that the walk needs next, as a sequence.
pub enum NeedView {
    Regular(Seq<u8>),
    Canonical(Seq<u8>),
    Source(Seq<u8>),
}

impl View for Need {
    type V = NeedView;

    open spec fn view(&self) -> NeedView {
        match self {
            Need::Regular(path) => NeedView::Regular(path@),
            Need::Canonical(path) => NeedView::Canonical(path@),
            Need::Source(path) => NeedView::Source(path@),
        }
    }
}

/// Whether a path is known to name a regular file.
pub open spec fn known_regular(facts: Seq<RegularFact>, path: Seq<u8>, from: int) -> Option<bool>
    decreases facts.len() - from,
{
    if from < 0 || from >= facts.len() {
        None
    } else if facts[from].path@ == path {
        Some(facts[from].regular)
    } else {
        known_regular(facts, path, from + 1)
    }
}

/// Where a path is known to lead.
pub open spec fn known_canonical(
    facts: Seq<CanonicalFact>,
    path: Seq<u8>,
    from: int,
) -> Option<Result<Vec<u8>, String>>
    decreases facts.len() - from,
{
    if from < 0 || from >= facts.len() {
        None
    } else if facts[from].path@ == path {
        Some(facts[from].canonical)
    } else {
        known_canonical(facts, path, from + 1)
    }
}

/// The known reads of a source.
pub open spec fn known_source(facts: Seq<SourceFact>, path: Seq<u8>, from: int) -> Option<
    SourceFact,
>
    decreases facts.len() - from,
{
    if from < 0 || from >= facts.len() {
        None
    } else if facts[from].path@ == path {
        Some(facts[from])
    } else {
        known_source(facts, path, from + 1)
    }
}

fn find_regular(facts: &ConfigFacts, path: &[u8]) -> (known: Option<bool>)
    ensures
        known == known_regular(facts.regular@, path@, 0),
{
    let mut index: usize = 0;
    while index < facts.regular.len()
        invariant
            index <= facts.regular@.len(),
            known_regular(facts.regular@, path@, 0) == known_regular(
                facts.regular@,
                path@,
                index as int,
            ),
        decreases facts.regular@.len() - index,
    {
        if same_bytes(facts.regular[index].path.as_slice(), path) {
            return Some(facts.regular[index].regular);
        }
        index = index + 1;
    }
    None
}

fn find_canonical<'a>(facts: &'a ConfigFacts, path: &[u8]) -> (known: Option<
    &'a Result<Vec<u8>, String>,
>)
    ensures
        match known {
            Some(found) => known_canonical(facts.canonical@, path@, 0) == Some(*found),
            None => known_canonical(facts.canonical@, path@, 0) is None,
        },
{
    let mut index: usize = 0;
    while index < facts.canonical.len()
        invariant
            index <= facts.canonical@.len(),
            known_canonical(facts.canonical@, path@, 0) == known_canonical(
                facts.canonical@,
                path@,
                index as int,
            ),
        decreases facts.canonical@.len() - index,
    {
        if same_bytes(facts.canonical[index].path.as_slice(), path) {
            return Some(&facts.canonical[index].canonical);
        }
        index = index + 1;
    }
    None
}

fn find_source<'a>(facts: &'a ConfigFacts, path: &[u8]) -> (known: Option<&'a SourceFact>)
    ensures
        match known {
            Some(found) => known_source(facts.sources@, path@, 0) == Some(*found),
            None => known_source(facts.sources@, path@, 0) is None,
        },
{
    let mut index: usize = 0;
    while index < facts.sources.len()
        invariant
            index <= facts.sources@.len(),
            known_source(facts.sources@, path@, 0) == known_source(
                facts.sources@,
                path@,
                index as int,
            ),
        decreases facts.sources@.len() - index,
    {
        if same_bytes(facts.sources[index].path.as_slice(), path) {
            return Some(&facts.sources[index]);
        }
        index = index + 1;
    }
    None
}

// The Cargo version.

/// The refusal of an unrecognized Cargo version.
pub open spec fn version_refusal() -> GraphRefusal {
    GraphRefusal {
        reason: VERSION_REASON@,
        message: "The active Cargo did not report a recognizable version."@,
        source: None,
    }
}

/// The second of the pieces between dots.
pub open spec fn second_piece(version: Seq<char>) -> Option<Seq<char>> {
    match letter_place(version, '.', 0) {
        None => None,
        Some(first) => match letter_place(version, '.', first + 1) {
            Some(second) => Some(version.subrange(first + 1, second)),
            None => Some(version.skip(first + 1)),
        },
    }
}

/// The version word of `cargo -Vv` output such as `cargo 1.97.1 (c980f4866 2026-06-30)`.
pub open spec fn version_word(cargo_version: Seq<char>) -> Option<Seq<char>> {
    let all = lines_of(cargo_version);
    if all.len() == 0 {
        None
    } else {
        match text_after(all[0], "cargo "@) {
            Some(rest) => first_word_of(rest),
            None => None,
        }
    }
}

/// The minor release that `cargo -Vv` output names.
pub open spec fn minor_of(cargo_version: Seq<char>) -> Option<u32> {
    match version_word(cargo_version) {
        None => None,
        Some(version) => match second_piece(version) {
            None => None,
            Some(minor) => leading_number_of(minor),
        },
    }
}

fn unrecognized() -> (failure: ConfigGraphFailure)
    ensures
        failure@ == version_refusal(),
{
    ConfigGraphFailure {
        reason: VERSION_REASON,
        message: "The active Cargo did not report a recognizable version.".to_owned(),
        source: None,
    }
}

/// Parses the minor release from `cargo -Vv` output.
pub fn parse_minor(cargo_version: &str) -> (minor: Result<u32, ConfigGraphFailure>)
    ensures
        match minor {
            Ok(found) => minor_of(cargo_version@) == Some(found),
            Err(failure) => minor_of(cargo_version@) is None && failure@ == version_refusal(),
        },
{
    let all = lines(cargo_version);
    assert(texts(all@).len() == all@.len());
    if all.len() == 0 {
        return Err(unrecognized());
    }
    assert(texts(all@)[0] == all@[0]@);
    let rest = match strip_text(all[0].as_str(), "cargo ") {
        Some(rest) => rest,
        None => return Err(unrecognized()),
    };
    let version = match first_word(rest.as_str()) {
        Some(version) => version,
        None => return Err(unrecognized()),
    };
    let letters = characters(version.as_str());
    let total: usize = letters.len();
    let first: usize = match find_letter(letters.as_slice(), '.', 0) {
        Some(place) => place,
        None => return Err(unrecognized()),
    };
    let end: usize = match find_letter(letters.as_slice(), '.', first + 1) {
        Some(place) => place,
        None => total,
    };
    let minor = &letters.as_slice()[first + 1..end];
    proof {
        assert(second_piece(version@) == Some(minor@)) by {
            assert(letters@.subrange(first + 1, total as int) =~= letters@.skip(first + 1));
        }
    }
    match leading_number(minor) {
        Some(number) => Ok(number),
        None => Err(unrecognized()),
    }
}

// One source.

/// The framed digest of one value.
pub open spec fn digest_of(value: Seq<u8>) -> Seq<char> {
    sha256_text(big_endian(value.len(), 8) + value)
}

/// The framed digest of one value.
pub fn digest(value: &[u8]) -> (text: String)
    ensures
        text@ == digest_of(value@),
        text@.len() == 64,
        forall|i: int| 0 <= i < text@.len() ==> is_hex_digit(#[trigger] text@[i]),
{
    let mut bytes: Vec<u8> = Vec::new();
    push_framed(&mut bytes, value);
    assert(bytes@ =~= big_endian(value@.len(), 8) + value@);
    sha256_hex(bytes.as_slice())
}

/// The bytes of one bounded read, or why they are refused.
pub open spec fn read_outcome(path: Seq<u8>, read: SourceRead) -> Result<Seq<u8>, GraphRefusal> {
    match read.status {
        Err(error) => Err(
            refusal_at(
                READ_REASON@,
                config_message(path, " could not be inspected: "@ + error@),
                path,
            ),
        ),
        Ok((regular, length)) => if !regular {
            Err(refusal_at(READ_REASON@, config_message(path, " is not a regular file."@), path))
        } else if length > SOURCE_BYTE_LIMIT {
            Err(refusal_at(LIMIT_REASON@, config_message(path, " exceeded 1 MiB."@), path))
        } else {
            match read.contents {
                Err(error) => Err(
                    refusal_at(
                        READ_REASON@,
                        config_message(path, " could not be read: "@ + error@),
                        path,
                    ),
                ),
                Ok(bytes) => Ok(bytes@),
            }
        },
    }
}

/// Decides one bounded read.
pub fn read_bounded<'a>(path: &[u8], read: &'a SourceRead) -> (bytes: Result<
    &'a Vec<u8>,
    ConfigGraphFailure,
>)
    ensures
        match bytes {
            Ok(found) => read_outcome(path@, *read) == Ok::<Seq<u8>, GraphRefusal>(found@),
            Err(failure) => read_outcome(path@, *read) == Err::<Seq<u8>, GraphRefusal>(failure@),
        },
{
    match &read.status {
        Err(error) => Err(
            failure_at(
                READ_REASON,
                write_config_message(
                    path,
                    text2(" could not be inspected: ", error.as_str()).as_str(),
                ),
                path,
            ),
        ),
        Ok((regular, length)) => {
            if !*regular {
                return Err(
                    failure_at(
                        READ_REASON,
                        write_config_message(path, " is not a regular file."),
                        path,
                    ),
                );
            }
            if *length > SOURCE_BYTE_LIMIT {
                return Err(
                    failure_at(
                        LIMIT_REASON,
                        write_config_message(path, " exceeded 1 MiB."),
                        path,
                    ),
                );
            }
            match &read.contents {
                Ok(bytes) => Ok(bytes),
                Err(error) => Err(
                    failure_at(
                        READ_REASON,
                        write_config_message(
                            path,
                            text2(" could not be read: ", error.as_str()).as_str(),
                        ),
                        path,
                    ),
                ),
            }
        },
    }
}

/// The text of a source whose two reads have these digests, or why it is refused.
pub open spec fn stable_outcome(
    path: Seq<u8>,
    contents: Seq<u8>,
    first_digest: Seq<char>,
    second_digest: Seq<char>,
) -> Result<(Seq<char>, Seq<char>), GraphRefusal> {
    if first_digest != second_digest {
        Err(
            refusal_at(
                MUTATED_REASON@,
                config_message(path, " changed while it was hashed."@),
                path,
            ),
        )
    } else if !valid_utf8(contents) {
        Err(refusal_at(READ_REASON@, config_message(path, " is not valid UTF-8."@), path))
    } else {
        Ok((decode_utf8(contents), first_digest))
    }
}

/// Decides whether two reads of a source with these digests are stable evidence.
pub fn stable_contents(
    path: &[u8],
    contents: &[u8],
    first_digest: String,
    second_digest: &str,
) -> (stable: Result<(String, String), ConfigGraphFailure>)
    ensures
        match stable {
            Ok((text, sha256)) => stable_outcome(
                path@,
                contents@,
                first_digest@,
                second_digest@,
            ) == Ok::<(Seq<char>, Seq<char>), GraphRefusal>((text@, sha256@)),
            Err(failure) => stable_outcome(
                path@,
                contents@,
                first_digest@,
                second_digest@,
            ) == Err::<(Seq<char>, Seq<char>), GraphRefusal>(failure@),
        },
{
    if !same_text(first_digest.as_str(), second_digest) {
        return Err(
            failure_at(
                MUTATED_REASON,
                write_config_message(path, " changed while it was hashed."),
                path,
            ),
        );
    }
    match utf8_text(contents) {
        Some(text) => Ok((text.to_owned(), first_digest)),
        None => Err(
            failure_at(READ_REASON, write_config_message(path, " is not valid UTF-8."), path),
        ),
    }
}

/// Hashes two reads of a source, so a file changed during discovery cannot be hashed as stable
/// evidence.
pub fn stable_source(path: &[u8], first: &[u8], second: &[u8]) -> (stable: Result<
    (String, String),
    ConfigGraphFailure,
>)
    ensures
        match stable {
            Ok((text, sha256)) => stable_outcome(
                path@,
                first@,
                digest_of(first@),
                digest_of(second@),
            ) == Ok::<(Seq<char>, Seq<char>), GraphRefusal>((text@, sha256@)),
            Err(failure) => stable_outcome(
                path@,
                first@,
                digest_of(first@),
                digest_of(second@),
            ) == Err::<(Seq<char>, Seq<char>), GraphRefusal>(failure@),
        },
{
    let sha256 = digest(first);
    stable_contents(path, first, sha256, digest(second).as_str())
}

/// The text and digest of a source read twice, or why it is refused.
pub open spec fn source_outcome(path: Seq<u8>, fact: SourceFact) -> Result<
    (Seq<char>, Seq<char>),
    GraphRefusal,
> {
    match read_outcome(path, fact.first) {
        Err(found) => Err(found),
        Ok(first) => match read_outcome(path, fact.second) {
            Err(found) => Err(found),
            Ok(second) => stable_outcome(path, first, digest_of(first), digest_of(second)),
        },
    }
}

/// Reads one source twice.
pub fn read_stable(path: &[u8], fact: &SourceFact) -> (stable: Result<
    (String, String),
    ConfigGraphFailure,
>)
    ensures
        match stable {
            Ok((text, sha256)) => source_outcome(path@, *fact) == Ok::<
                (Seq<char>, Seq<char>),
                GraphRefusal,
            >((text@, sha256@)),
            Err(failure) => source_outcome(path@, *fact) == Err::<
                (Seq<char>, Seq<char>),
                GraphRefusal,
            >(failure@),
        },
{
    let first = match read_bounded(path, &fact.first) {
        Ok(bytes) => bytes,
        Err(failure) => return Err(failure),
    };
    let second = match read_bounded(path, &fact.second) {
        Ok(bytes) => bytes,
        Err(failure) => return Err(failure),
    };
    stable_source(path, first.as_slice(), second.as_slice())
}

/// The refusal of one compiler override.
pub open spec fn override_refusal(key: Seq<char>, path: Seq<u8>) -> GraphRefusal {
    refusal_at(
        COMPILER_OVERRIDE_REASON@,
        "PGO was rejected because effective build."@ + key + " may come from "@ + lossy_text(path)
            + "."@,
        path,
    )
}

/// Whether a document declares this key in its build table.
pub open spec fn declares_build_key(document: TomlView, key: Seq<char>) -> bool {
    match entry_of(document, "build"@) {
        Some(build) => entry_of(build, key) is Some,
        None => false,
    }
}

/// The refusal of a document that overrides a compiler: keys that cannot be proved inactive
/// without reimplementing Cargo's scalar precedence.
pub open spec fn override_outcome(document: TomlView, path: Seq<u8>) -> Option<GraphRefusal> {
    if declares_build_key(document, "rustc"@) {
        Some(override_refusal("rustc"@, path))
    } else if declares_build_key(document, "rustc-wrapper"@) {
        Some(override_refusal("rustc-wrapper"@, path))
    } else if declares_build_key(document, "rustc-workspace-wrapper"@) {
        Some(override_refusal("rustc-workspace-wrapper"@, path))
    } else {
        None
    }
}

fn refuse_override(key: &str, path: &[u8]) -> (failure: ConfigGraphFailure)
    ensures
        failure@ == override_refusal(key@, path@),
{
    failure_at(
        COMPILER_OVERRIDE_REASON,
        text5(
            "PGO was rejected because effective build.",
            key,
            " may come from ",
            lossy(path).as_str(),
            ".",
        ),
        path,
    )
}

/// Refuses a document that declares a compiler override.
pub fn reject_compiler_override(document: &TomlValue, path: &[u8]) -> (checked: Result<
    (),
    ConfigGraphFailure,
>)
    ensures
        match checked {
            Ok(_) => override_outcome(toml_view(*document), path@) is None,
            Err(failure) => override_outcome(toml_view(*document), path@) == Some(failure@),
        },
{
    let build = match get(document, "build") {
        Some(build) => build,
        None => return Ok(()),
    };
    if get(build, "rustc").is_some() {
        return Err(refuse_override("rustc", path));
    }
    if get(build, "rustc-wrapper").is_some() {
        return Err(refuse_override("rustc-wrapper", path));
    }
    if get(build, "rustc-workspace-wrapper").is_some() {
        return Err(refuse_override("rustc-workspace-wrapper", path));
    }
    Ok(())
}

/// One declared inclusion: what it names, and whether it may be absent.
#[derive(Debug)]
pub struct Declared {
    pub declared: String,
    pub optional: bool,
}

/// The views of declared inclusions.
pub open spec fn declared_views(declared: Seq<Declared>) -> Seq<(Seq<char>, bool)> {
    declared.map_values(|item: Declared| (item.declared@, item.optional))
}

/// The refusal of a malformed inclusion.
pub open spec fn malformed(path: Seq<u8>, detail: Seq<char>) -> GraphRefusal {
    refusal_at(
        INCLUDE_MALFORMED_REASON@,
        config_message(path, " declares "@ + detail + "."@),
        path,
    )
}

fn refuse_malformed(path: &[u8], detail: &str) -> (failure: ConfigGraphFailure)
    ensures
        failure@ == malformed(path@, detail@),
{
    failure_at(
        INCLUDE_MALFORMED_REASON,
        write_config_message(path, text3(" declares ", detail, ".").as_str()),
        path,
    )
}

/// Whether a table has no other keys than a path and an optional flag.
pub open spec fn known_keys(entries: Seq<(Seq<char>, TomlView)>) -> bool {
    forall|i: int|
        0 <= i < entries.len() ==> (#[trigger] entries[i]).0 == "path"@ || entries[i].0
            == "optional"@
}

/// Whether a character belongs to a path pattern.
pub open spec fn is_pattern_letter(letter: char) -> bool {
    ||| letter == '*'
    ||| letter == '?'
    ||| letter == '['
    ||| letter == ']'
    ||| letter == '{'
    ||| letter == '}'
}

/// Whether a text holds a pattern character.
pub open spec fn holds_pattern(text: Seq<char>) -> bool {
    exists|i: int| 0 <= i < text.len() && is_pattern_letter(#[trigger] text[i])
}

/// Whether a text ends in `.toml`.
pub open spec fn ends_in_toml(text: Seq<char>) -> bool {
    ".toml"@.is_suffix_of(text)
}

/// What one entry of the inclusion list names, before its path is looked at.
pub open spec fn entry_shape(entry: TomlView) -> Result<(Seq<char>, bool), Seq<char>> {
    match entry {
        TomlView::Text(declared) => Ok((declared, false)),
        TomlView::Table(entries) => if !known_keys(entries) {
            Err("an include table with an unsupported key"@)
        } else {
            match entry_of(entry, "path"@) {
                Some(TomlView::Text(declared)) => match entry_of(entry, "optional"@) {
                    None => Ok((declared, false)),
                    Some(TomlView::Flag(optional)) => Ok((declared, optional)),
                    Some(_) => Err("an include optional flag that is not a boolean"@),
                },
                _ => Err("an include table without a string path"@),
            }
        },
        _ => Err("an include entry that is neither a string nor a table"@),
    }
}

/// What one entry of the inclusion list declares, or the detail that makes it malformed.
pub open spec fn entry_declaration(entry: TomlView) -> Result<(Seq<char>, bool), Seq<char>> {
    match entry_shape(entry) {
        Err(detail) => Err(detail),
        Ok((declared, optional)) => if !ends_in_toml(declared) {
            Err("an include path that does not end in .toml"@)
        } else if holds_pattern(declared) {
            Err("an include path containing a pattern character"@)
        } else {
            Ok((declared, optional))
        },
    }
}

/// What the first `count` entries declare, or the first malformed detail.
pub open spec fn declarations(entries: Seq<TomlView>, count: int) -> Result<
    Seq<(Seq<char>, bool)>,
    Seq<char>,
>
    decreases count,
{
    if count <= 0 {
        Ok(Seq::empty())
    } else {
        match declarations(entries, count - 1) {
            Err(detail) => Err(detail),
            Ok(earlier) => match entry_declaration(entries[count - 1]) {
                Err(detail) => Err(detail),
                Ok(found) => Ok(earlier.push(found)),
            },
        }
    }
}

/// The inclusions that a document declares, or why they are refused. Only a list of strings, or
/// of tables carrying `path` and an optional `optional` flag, is supported.
pub open spec fn include_outcome(document: TomlView, path: Seq<u8>) -> Result<
    Seq<(Seq<char>, bool)>,
    GraphRefusal,
> {
    match entry_of(document, INCLUDE_KEY@) {
        None => Ok(Seq::empty()),
        Some(TomlView::List(entries)) => if entries.len() > DECLARED_LIMIT {
            Err(
                refusal_at(
                    LIMIT_REASON@,
                    config_message(path, " declares more than 256 includes."@),
                    path,
                ),
            )
        } else if parent_path(path) is None {
            Err(malformed(path, "an include in a file with no parent directory"@))
        } else {
            match declarations(entries, entries.len() as int) {
                Ok(found) => Ok(found),
                Err(detail) => Err(malformed(path, detail)),
            }
        },
        Some(_) => Err(malformed(path, "an include value that is not a list"@)),
    }
}

fn ends_with_toml(text: &str) -> (found: bool)
    ensures
        found == ends_in_toml(text@),
{
    let letters = characters(text);
    let ending = characters(".toml");
    if ending.len() > letters.len() {
        return false;
    }
    let total: usize = letters.len();
    let offset: usize = total - ending.len();
    let mut index: usize = 0;
    while index < ending.len()
        invariant
            index <= ending@.len(),
            offset + ending@.len() == total == letters@.len(),
            letters@ == text@,
            ending@ == ".toml"@,
            forall|i: int| 0 <= i < index ==> #[trigger] ending@[i] == letters@[offset + i],
        decreases ending@.len() - index,
    {
        if letters[offset + index] != ending[index] {
            proof {
                if ".toml"@.is_suffix_of(text@) {
                    assert(ending@ == text@.subrange(offset as int, text@.len() as int));
                    assert(ending@[index as int] == letters@[offset + index]);
                }
            }
            return false;
        }
        index = index + 1;
    }
    assert(ending@ =~= text@.subrange(offset as int, text@.len() as int));
    true
}

fn contains_pattern(text: &str) -> (found: bool)
    ensures
        found == holds_pattern(text@),
{
    let letters = characters(text);
    let mut index: usize = 0;
    while index < letters.len()
        invariant
            index <= letters@.len(),
            letters@ == text@,
            forall|i: int| 0 <= i < index ==> !is_pattern_letter(#[trigger] letters@[i]),
        decreases letters@.len() - index,
    {
        let letter: char = letters[index];
        if letter == '*' || letter == '?' || letter == '[' || letter == ']' || letter == '{'
            || letter == '}' {
            assert(is_pattern_letter(text@[index as int]));
            return true;
        }
        index = index + 1;
    }
    false
}

fn only_known_keys(entries: &Vec<TomlEntry>) -> (known: bool)
    ensures
        known == known_keys(toml_view(TomlValue::Table(*entries))->Table_0),
{
    let ghost views = toml_view(TomlValue::Table(*entries))->Table_0;
    let mut index: usize = 0;
    while index < entries.len()
        invariant
            index <= entries@.len(),
            views == toml_view(TomlValue::Table(*entries))->Table_0,
            views.len() == entries@.len(),
            forall|i: int|
                0 <= i < index ==> (#[trigger] views[i]).0 == "path"@ || views[i].0
                    == "optional"@,
        decreases entries@.len() - index,
    {
        assert(views[index as int].0 == entries@[index as int].key@);
        let key = entries[index].key.as_str();
        if !same_text(key, "path") && !same_text(key, "optional") {
            return false;
        }
        index = index + 1;
    }
    true
}

fn read_include_entry(entry: &TomlValue) -> (declared: Result<Declared, &'static str>)
    ensures
        match declared {
            Ok(found) => entry_declaration(toml_view(*entry)) == Ok::<
                (Seq<char>, bool),
                Seq<char>,
            >((found.declared@, found.optional)),
            Err(detail) => entry_declaration(toml_view(*entry)) == Err::<
                (Seq<char>, bool),
                Seq<char>,
            >(detail@),
        },
{
    let (declared, optional): (&String, bool) = match entry {
        TomlValue::Text(declared) => (declared, false),
        TomlValue::Table(entries) => {
            if !only_known_keys(entries) {
                return Err("an include table with an unsupported key");
            }
            let declared = match find_entry(entries, "path") {
                Some(TomlValue::Text(declared)) => declared,
                _ => return Err("an include table without a string path"),
            };
            let optional: bool = match find_entry(entries, "optional") {
                None => false,
                Some(TomlValue::Flag(optional)) => *optional,
                Some(_) => return Err("an include optional flag that is not a boolean"),
            };
            (declared, optional)
        },
        _ => return Err("an include entry that is neither a string nor a table"),
    };
    assert(entry_shape(toml_view(*entry)) == Ok::<(Seq<char>, bool), Seq<char>>(
        (declared@, optional),
    ));
    if !ends_with_toml(declared.as_str()) {
        return Err("an include path that does not end in .toml");
    }
    if contains_pattern(declared.as_str()) {
        return Err("an include path containing a pattern character");
    }
    Ok(Declared { declared: declared.clone(), optional })
}

proof fn lemma_declarations_prefix(entries: Seq<TomlView>, count: int, more: int)
    requires
        0 <= count <= more,
        declarations(entries, count) is Err,
    ensures
        declarations(entries, more) == declarations(entries, count),
    decreases more - count,
{
    if count < more {
        lemma_declarations_prefix(entries, count, more - 1);
    }
}

/// Reads the inclusions that a document declares.
pub fn include_edges(document: &TomlValue, path: &[u8]) -> (edges: Result<
    Vec<Declared>,
    ConfigGraphFailure,
>)
    ensures
        match edges {
            Ok(found) => include_outcome(toml_view(*document), path@) == Ok::<
                Seq<(Seq<char>, bool)>,
                GraphRefusal,
            >(declared_views(found@)),
            Err(failure) => include_outcome(toml_view(*document), path@) == Err::<
                Seq<(Seq<char>, bool)>,
                GraphRefusal,
            >(failure@),
        },
{
    let value = match get(document, INCLUDE_KEY) {
        Some(value) => value,
        None => {
            let none: Vec<Declared> = Vec::new();
            assert(declared_views(none@) =~= Seq::empty());
            return Ok(none);
        },
    };
    let entries = match value {
        TomlValue::List(entries) => entries,
        _ => return Err(refuse_malformed(path, "an include value that is not a list")),
    };
    let ghost views = toml_view(*value)->List_0;
    assert(views.len() == entries@.len());
    if entries.len() > DECLARED_LIMIT {
        return Err(
            failure_at(
                LIMIT_REASON,
                write_config_message(path, " declares more than 256 includes."),
                path,
            ),
        );
    }
    if parent(path).is_none() {
        return Err(refuse_malformed(path, "an include in a file with no parent directory"));
    }
    let mut found: Vec<Declared> = Vec::new();
    let mut index: usize = 0;
    assert(declared_views(found@) =~= Seq::empty());
    while index < entries.len()
        invariant
            index <= entries@.len() == views.len(),
            views == toml_view(*value)->List_0,
            *value == TomlValue::List(*entries),
            entry_of(toml_view(*document), INCLUDE_KEY@) == Some(toml_view(*value)),
            views.len() <= DECLARED_LIMIT,
            parent_path(path@) is Some,
            declarations(views, index as int) == Ok::<Seq<(Seq<char>, bool)>, Seq<char>>(
                declared_views(found@),
            ),
        decreases entries@.len() - index,
    {
        assert(views[index as int] == toml_view(entries@[index as int]));
        match read_include_entry(&entries[index]) {
            Err(detail) => {
                proof {
                    assert(declarations(views, index + 1) == Err::<
                        Seq<(Seq<char>, bool)>,
                        Seq<char>,
                    >(detail@));
                    lemma_declarations_prefix(views, index + 1, views.len() as int);
                }
                return Err(refuse_malformed(path, detail));
            },
            Ok(declared) => {
                let ghost before = found@;
                found.push(declared);
                assert(declared_views(found@) =~= declared_views(before).push(
                    (declared.declared@, declared.optional),
                ));
            },
        }
        index = index + 1;
    }
    Ok(found)
}

// The walk.

/// What an attempt came to: an outcome, a refusal, or a missing observation.
#[derive(Debug)]
pub enum Attempt<T> {
    Done(T),
    Refused(ConfigGraphFailure),
    Needs(Need),
}

/// What an attempt came to, as sequences.
pub enum AttemptView<T> {
    Done(T),
    Refused(GraphRefusal),
    Needs(NeedView),
}

/// What the walk has gathered: whether any source declares an inclusion, and the sources so far.
#[derive(Debug)]
pub struct Scanner {
    pub declares_include: bool,
    pub sources: Vec<ConfigSource>,
}

/// What the walk has gathered, as sequences.
#[verifier::ext_equal]
pub struct ScannerView {
    pub declares_include: bool,
    pub sources: Seq<SourceView>,
}

impl View for Scanner {
    type V = ScannerView;

    open spec fn view(&self) -> ScannerView {
        ScannerView {
            declares_include: self.declares_include,
            sources: source_views(self.sources@),
        }
    }
}

/// The view of an attempt at a walk.
pub open spec fn attempt_view(attempt: Attempt<Scanner>) -> AttemptView<ScannerView> {
    match attempt {
        Attempt::Done(scanner) => AttemptView::Done(scanner@),
        Attempt::Refused(failure) => AttemptView::Refused(failure@),
        Attempt::Needs(need) => AttemptView::Needs(need@),
    }
}

/// The view of an attempt at the edges of a source.
pub open spec fn edges_attempt(attempt: Attempt<Vec<IncludeEdge>>) -> AttemptView<Seq<EdgeView>> {
    match attempt {
        Attempt::Done(edges) => AttemptView::Done(edge_views(edges@)),
        Attempt::Refused(failure) => AttemptView::Refused(failure@),
        Attempt::Needs(need) => AttemptView::Needs(need@),
    }
}

/// The edges of a source below `directory`, with the presence of each, among the first `count`.
pub open spec fn resolved_edges(
    facts: ConfigFacts,
    directory: Seq<u8>,
    declared: Seq<(Seq<char>, bool)>,
    count: int,
) -> AttemptView<Seq<EdgeView>>
    decreases count,
{
    if count <= 0 {
        AttemptView::Done(Seq::empty())
    } else {
        match resolved_edges(facts, directory, declared, count - 1) {
            AttemptView::Done(earlier) => {
                let (name, optional) = declared[count - 1];
                let resolved = join_path(directory, encode_utf8(name));
                match known_regular(facts.regular@, resolved, 0) {
                    None => AttemptView::Needs(NeedView::Regular(resolved)),
                    Some(present) => AttemptView::Done(
                        earlier.push(EdgeView { declared: name, resolved, optional, present }),
                    ),
                }
            },
            other => other,
        }
    }
}

proof fn lemma_resolved_prefix(
    facts: ConfigFacts,
    directory: Seq<u8>,
    declared: Seq<(Seq<char>, bool)>,
    count: int,
    more: int,
)
    requires
        0 <= count <= more,
        !(resolved_edges(facts, directory, declared, count) is Done),
    ensures
        resolved_edges(facts, directory, declared, more) == resolved_edges(
            facts,
            directory,
            declared,
            count,
        ),
    decreases more - count,
{
    if count < more {
        lemma_resolved_prefix(facts, directory, declared, count, more - 1);
    }
}

fn resolve_edges(facts: &ConfigFacts, directory: &[u8], declared: &Vec<Declared>) -> (edges: Attempt<
    Vec<IncludeEdge>,
>)
    ensures
        edges_attempt(edges) == resolved_edges(
            *facts,
            directory@,
            declared_views(declared@),
            declared@.len() as int,
        ),
        !(edges is Refused),
{
    let ghost views = declared_views(declared@);
    let mut edges: Vec<IncludeEdge> = Vec::new();
    let mut index: usize = 0;
    assert(edge_views(edges@) =~= Seq::empty());
    while index < declared.len()
        invariant
            index <= declared@.len(),
            views == declared_views(declared@),
            resolved_edges(*facts, directory@, views, index as int) == AttemptView::Done(
                edge_views(edges@),
            ),
        decreases declared@.len() - index,
    {
        let item = &declared[index];
        assert(views[index as int] == (item.declared@, item.optional));
        let resolved = join(directory, item.declared.as_str().as_bytes());
        match find_regular(facts, resolved.as_slice()) {
            None => {
                proof {
                    assert(resolved_edges(*facts, directory@, views, index + 1) is Needs);
                    lemma_resolved_prefix(
                        *facts,
                        directory@,
                        views,
                        index + 1,
                        declared@.len() as int,
                    );
                }
                return Attempt::Needs(Need::Regular(resolved));
            },
            Some(present) => {
                let edge = IncludeEdge {
                    declared: item.declared.clone(),
                    resolved,
                    optional: item.optional,
                    present,
                };
                let ghost before = edges@;
                edges.push(edge);
                assert(edge_views(edges@) =~= edge_views(before).push(edge@));
            },
        }
        index = index + 1;
    }
    Attempt::Done(edges)
}

/// Whether one of `paths` has the components of `path`.
pub open spec fn lists_path(paths: Seq<Seq<u8>>, path: Seq<u8>) -> bool {
    exists|i: int| 0 <= i < paths.len() && parts(#[trigger] paths[i]) == parts(path)
}

/// The paths of sources.
pub open spec fn source_paths(sources: Seq<SourceView>) -> Seq<Seq<u8>> {
    sources.map_values(|source: SourceView| source.path)
}

/// What the document at `canonical` contributes: its digest and its edges.
pub open spec fn source_edges(
    facts: ConfigFacts,
    include_supported: bool,
    canonical: Seq<u8>,
) -> AttemptView<(Seq<char>, Seq<EdgeView>)> {
    match known_source(facts.sources@, canonical, 0) {
        None => AttemptView::Needs(NeedView::Source(canonical)),
        Some(fact) => match source_outcome(canonical, fact) {
            Err(found) => AttemptView::Refused(found),
            Ok((text, sha256)) => match toml_document(text) {
                Err(error) => AttemptView::Refused(
                    refusal_at(
                        PARSE_REASON@,
                        config_message(canonical, " could not be parsed: "@ + error),
                        canonical,
                    ),
                ),
                Ok(document) => document_edges(
                    facts,
                    include_supported,
                    canonical,
                    sha256,
                    document,
                ),
            },
        },
    }
}

/// What a parsed document contributes: its digest and its edges.
pub open spec fn document_edges(
    facts: ConfigFacts,
    include_supported: bool,
    canonical: Seq<u8>,
    sha256: Seq<char>,
    document: TomlView,
) -> AttemptView<(Seq<char>, Seq<EdgeView>)> {
    match override_outcome(document, canonical) {
        Some(found) => AttemptView::Refused(found),
        None => match include_outcome(document, canonical) {
            Err(found) => AttemptView::Refused(found),
            Ok(declared) => if declared.len() > 0 && !include_supported {
                AttemptView::Refused(
                    refusal_at(
                        INCLUDE_UNSUPPORTED_REASON@,
                        config_message(
                            canonical,
                            " uses the stable include key, which requires Cargo 1.94 or newer."@,
                        ),
                        canonical,
                    ),
                )
            } else if declared.len() == 0 {
                AttemptView::Done((sha256, Seq::empty()))
            } else {
                match resolved_edges(
                    facts,
                    parent_path(canonical)->0,
                    declared,
                    declared.len() as int,
                ) {
                    AttemptView::Done(edges) => AttemptView::Done((sha256, edges)),
                    AttemptView::Refused(found) => AttemptView::Refused(found),
                    AttemptView::Needs(need) => AttemptView::Needs(need),
                }
            },
        },
    }
}

/// The walk from `path` on. Included files load first and are overridden by the including file,
/// so they precede it in the recorded order.
pub open spec fn loaded(
    facts: ConfigFacts,
    include_supported: bool,
    scanner: ScannerView,
    stack: Seq<Seq<u8>>,
    path: Seq<u8>,
    discovery: Discovery,
) -> AttemptView<ScannerView>
    decreases INCLUDE_DEPTH_LIMIT + 1 - stack.len(), 0int, 0int,
{
    match known_canonical(facts.canonical@, path, 0) {
        None => AttemptView::Needs(NeedView::Canonical(path)),
        Some(Err(error)) => AttemptView::Refused(
            refusal_at(
                READ_REASON@,
                config_message(path, " could not be resolved: "@ + error@),
                path,
            ),
        ),
        Some(Ok(found)) => {
            let canonical = found@;
            if lists_path(stack, canonical) {
                AttemptView::Refused(
                    refusal_at(
                        INCLUDE_CYCLE_REASON@,
                        config_message(canonical, " takes part in an include cycle."@),
                        canonical,
                    ),
                )
            } else if lists_path(source_paths(scanner.sources), canonical) {
                AttemptView::Done(scanner)
            } else if stack.len() >= INCLUDE_DEPTH_LIMIT || scanner.sources.len() >= SOURCE_LIMIT {
                AttemptView::Refused(
                    refusal_at(
                        LIMIT_REASON@,
                        "The Cargo config graph exceeded 64 sources or depth 16."@,
                        canonical,
                    ),
                )
            } else {
                match source_edges(facts, include_supported, canonical) {
                    AttemptView::Needs(need) => AttemptView::Needs(need),
                    AttemptView::Refused(refused) => AttemptView::Refused(refused),
                    AttemptView::Done((sha256, edges)) => {
                        let entered = ScannerView {
                            declares_include: scanner.declares_include || edges.len() > 0,
                            sources: scanner.sources,
                        };
                        match loaded_includes(
                            facts,
                            include_supported,
                            entered,
                            stack.push(canonical),
                            edges,
                            0,
                            canonical,
                        ) {
                            AttemptView::Done(after) => AttemptView::Done(
                                ScannerView {
                                    declares_include: after.declares_include,
                                    sources: after.sources.push(
                                        SourceView {
                                            path: canonical,
                                            sha256,
                                            discovery,
                                            includes: edges,
                                        },
                                    ),
                                },
                            ),
                            other => other,
                        }
                    },
                }
            }
        },
    }
}

/// The walk through the inclusions of one source, from the edge at `index` on.
pub open spec fn loaded_includes(
    facts: ConfigFacts,
    include_supported: bool,
    scanner: ScannerView,
    stack: Seq<Seq<u8>>,
    edges: Seq<EdgeView>,
    index: int,
    including: Seq<u8>,
) -> AttemptView<ScannerView>
    decreases INCLUDE_DEPTH_LIMIT + 1 - stack.len(), 1int, edges.len() - index,
{
    if index < 0 || index >= edges.len() {
        AttemptView::Done(scanner)
    } else if edges[index].present {
        match loaded(
            facts,
            include_supported,
            scanner,
            stack,
            edges[index].resolved,
            Discovery::Include,
        ) {
            AttemptView::Done(after) => loaded_includes(
                facts,
                include_supported,
                after,
                stack,
                edges,
                index + 1,
                including,
            ),
            other => other,
        }
    } else if !edges[index].optional {
        AttemptView::Refused(
            refusal_at(
                INCLUDE_MISSING_REASON@,
                config_message(
                    including,
                    " requires include "@ + lossy_text(edges[index].resolved)
                        + " which does not exist."@,
                ),
                including,
            ),
        )
    } else {
        loaded_includes(
            facts,
            include_supported,
            scanner,
            stack,
            edges,
            index + 1,
            including,
        )
    }
}

fn holds_path(paths: &Vec<Vec<u8>>, path: &[u8]) -> (found: bool)
    ensures
        found == lists_path(byte_strings(paths@), path@),
{
    let ghost views = byte_strings(paths@);
    let mut index: usize = 0;
    while index < paths.len()
        invariant
            index <= paths@.len(),
            views == byte_strings(paths@),
            forall|i: int| 0 <= i < index ==> parts(#[trigger] views[i]) != parts(path@),
        decreases paths@.len() - index,
    {
        assert(views[index as int] == paths@[index as int]@);
        if same_path(paths[index].as_slice(), path) {
            return true;
        }
        index = index + 1;
    }
    false
}

fn holds_source(sources: &Vec<ConfigSource>, path: &[u8]) -> (found: bool)
    ensures
        found == lists_path(source_paths(source_views(sources@)), path@),
{
    let ghost views = source_paths(source_views(sources@));
    let mut index: usize = 0;
    while index < sources.len()
        invariant
            index <= sources@.len(),
            views == source_paths(source_views(sources@)),
            forall|i: int| 0 <= i < index ==> parts(#[trigger] views[i]) != parts(path@),
        decreases sources@.len() - index,
    {
        assert(views[index as int] == sources@[index as int].path@);
        if same_path(sources[index].path.as_slice(), path) {
            return true;
        }
        index = index + 1;
    }
    false
}

/// The view of an attempt at one source.
pub open spec fn source_attempt(attempt: Attempt<(String, Vec<IncludeEdge>)>) -> AttemptView<
    (Seq<char>, Seq<EdgeView>),
> {
    match attempt {
        Attempt::Done((sha256, edges)) => AttemptView::Done((sha256@, edge_views(edges@))),
        Attempt::Refused(failure) => AttemptView::Refused(failure@),
        Attempt::Needs(need) => AttemptView::Needs(need@),
    }
}

/// Decides what a parsed document contributes.
pub fn read_edges(
    facts: &ConfigFacts,
    include_supported: bool,
    canonical: &[u8],
    sha256: String,
    document: &TomlValue,
) -> (attempt: Attempt<(String, Vec<IncludeEdge>)>)
    ensures
        source_attempt(attempt) == document_edges(
            *facts,
            include_supported,
            canonical@,
            sha256@,
            toml_view(*document),
        ),
{
    if let Err(failure) = reject_compiler_override(document, canonical) {
        return Attempt::Refused(failure);
    }
    let declared = match include_edges(document, canonical) {
        Ok(declared) => declared,
        Err(failure) => return Attempt::Refused(failure),
    };
    assert(declared_views(declared@).len() == declared@.len());
    if declared.len() > 0 && !include_supported {
        return Attempt::Refused(
            failure_at(
                INCLUDE_UNSUPPORTED_REASON,
                write_config_message(
                    canonical,
                    " uses the stable include key, which requires Cargo 1.94 or newer.",
                ),
                canonical,
            ),
        );
    }
    if declared.len() == 0 {
        let none: Vec<IncludeEdge> = Vec::new();
        assert(edge_views(none@) =~= Seq::empty());
        return Attempt::Done((sha256, none));
    }
    let directory = match parent(canonical) {
        Some(directory) => directory,
        None => {
            proof {
                // A source without a parent directory declares no inclusion that is accepted.
                assert(parent_path(canonical@) is None);
                assert(false);
            }
            Vec::new()
        },
    };
    match resolve_edges(facts, directory.as_slice(), &declared) {
        Attempt::Done(edges) => Attempt::Done((sha256, edges)),
        Attempt::Refused(failure) => Attempt::Refused(failure),
        Attempt::Needs(need) => Attempt::Needs(need),
    }
}

fn read_source(facts: &ConfigFacts, include_supported: bool, canonical: &[u8]) -> (attempt: Attempt<
    (String, Vec<IncludeEdge>),
>)
    ensures
        source_attempt(attempt) == source_edges(*facts, include_supported, canonical@),
{
    let fact = match find_source(facts, canonical) {
        Some(fact) => fact,
        None => return Attempt::Needs(Need::Source(slice_to_vec(canonical))),
    };
    let (contents, sha256) = match read_stable(canonical, fact) {
        Ok(found) => found,
        Err(failure) => return Attempt::Refused(failure),
    };
    match read_document(contents.as_str()) {
        Err(error) => Attempt::Refused(
            failure_at(
                PARSE_REASON,
                write_config_message(
                    canonical,
                    text2(" could not be parsed: ", error.as_str()).as_str(),
                ),
                canonical,
            ),
        ),
        Ok(document) => read_edges(facts, include_supported, canonical, sha256, &document),
    }
}

impl Scanner {
    /// Walks from `path` on.
    pub fn load(
        self,
        facts: &ConfigFacts,
        include_supported: bool,
        stack: &Vec<Vec<u8>>,
        path: &[u8],
        discovery: Discovery,
    ) -> (attempt: Attempt<Scanner>)
        ensures
            attempt_view(attempt) == loaded(
                *facts,
                include_supported,
                self@,
                byte_strings(stack@),
                path@,
                discovery,
            ),
        decreases INCLUDE_DEPTH_LIMIT + 1 - stack@.len(), 0int, 0int,
    {
        let canonical = match find_canonical(facts, path) {
            None => return Attempt::Needs(Need::Canonical(slice_to_vec(path))),
            Some(Err(error)) => return Attempt::Refused(
                failure_at(
                    READ_REASON,
                    write_config_message(
                        path,
                        text2(" could not be resolved: ", error.as_str()).as_str(),
                    ),
                    path,
                ),
            ),
            Some(Ok(canonical)) => canonical.clone(),
        };
        let ghost stack_views = byte_strings(stack@);
        assert(stack_views.len() == stack@.len());
        assert(self@.sources.len() == self.sources@.len());
        if holds_path(stack, canonical.as_slice()) {
            return Attempt::Refused(
                failure_at(
                    INCLUDE_CYCLE_REASON,
                    write_config_message(
                        canonical.as_slice(),
                        " takes part in an include cycle.",
                    ),
                    canonical.as_slice(),
                ),
            );
        }
        if holds_source(&self.sources, canonical.as_slice()) {
            return Attempt::Done(self);
        }
        if stack.len() >= INCLUDE_DEPTH_LIMIT || self.sources.len() >= SOURCE_LIMIT {
            return Attempt::Refused(
                failure_at(
                    LIMIT_REASON,
                    "The Cargo config graph exceeded 64 sources or depth 16.".to_owned(),
                    canonical.as_slice(),
                ),
            );
        }
        let (sha256, edges) = match read_source(facts, include_supported, canonical.as_slice()) {
            Attempt::Done(found) => found,
            Attempt::Refused(failure) => return Attempt::Refused(failure),
            Attempt::Needs(need) => return Attempt::Needs(need),
        };
        assert(edge_views(edges@).len() == edges@.len());
        let mut deeper = copy_byte_strings(stack);
        let ghost copied = deeper@;
        assert(copied.len() == byte_strings(copied).len());
        deeper.push(canonical.clone());
        assert(byte_strings(deeper@) =~= stack_views.push(canonical@));
        let entered = Scanner {
            declares_include: self.declares_include || edges.len() > 0,
            sources: self.sources,
        };
        match entered.load_includes(
            facts,
            include_supported,
            &deeper,
            &edges,
            0,
            canonical.as_slice(),
        ) {
            Attempt::Done(after) => {
                let ghost before = after.sources@;
                let mut sources = after.sources;
                let source = ConfigSource { path: canonical, sha256, discovery, includes: edges };
                sources.push(source);
                assert(source_views(sources@) =~= source_views(before).push(source@));
                Attempt::Done(Scanner { declares_include: after.declares_include, sources })
            },
            Attempt::Refused(failure) => Attempt::Refused(failure),
            Attempt::Needs(need) => Attempt::Needs(need),
        }
    }

    /// Walks through the inclusions of one source, from the edge at `index` on.
    pub fn load_includes(
        self,
        facts: &ConfigFacts,
        include_supported: bool,
        stack: &Vec<Vec<u8>>,
        edges: &Vec<IncludeEdge>,
        index: usize,
        including: &[u8],
    ) -> (attempt: Attempt<Scanner>)
        ensures
            attempt_view(attempt) == loaded_includes(
                *facts,
                include_supported,
                self@,
                byte_strings(stack@),
                edge_views(edges@),
                index as int,
                including@,
            ),
        decreases INCLUDE_DEPTH_LIMIT + 1 - stack@.len(), 1int, edges@.len() - index,
    {
        let ghost views = edge_views(edges@);
        assert(views.len() == edges@.len());
        if index >= edges.len() {
            return Attempt::Done(self);
        }
        let edge = &edges[index];
        assert(views[index as int] == edge@);
        if edge.present {
            match self.load(
                facts,
                include_supported,
                stack,
                edge.resolved.as_slice(),
                Discovery::Include,
            ) {
                Attempt::Done(after) => after.load_includes(
                    facts,
                    include_supported,
                    stack,
                    edges,
                    index + 1,
                    including,
                ),
                Attempt::Refused(failure) => Attempt::Refused(failure),
                Attempt::Needs(need) => Attempt::Needs(need),
            }
        } else if !edge.optional {
            Attempt::Refused(
                failure_at(
                    INCLUDE_MISSING_REASON,
                    write_config_message(
                        including,
                        text3(
                            " requires include ",
                            lossy(edge.resolved.as_slice()).as_str(),
                            " which does not exist.",
                        ).as_str(),
                    ),
                    including,
                ),
            )
        } else {
            self.load_includes(facts, include_supported, stack, edges, index + 1, including)
        }
    }
}

// The roots.

/// The directory of Cargo's own configuration.
pub open spec fn cargo_home_of(
    variables: Seq<(Seq<u8>, Seq<u8>)>,
    workspace_root: Seq<u8>,
) -> Option<Seq<u8>> {
    match value_of(variables, "CARGO_HOME"@) {
        Some(configured) => Some(join_path(workspace_root, configured)),
        None => match value_of(variables, "HOME"@) {
            Some(home) => Some(join_path(home, encode_utf8(".cargo"@))),
            None => None,
        },
    }
}

/// The directory of Cargo's own configuration.
pub fn cargo_home(variables: &Vec<Variable>, workspace_root: &[u8]) -> (home: Option<Vec<u8>>)
    ensures
        optional_bytes(home) == cargo_home_of(variable_pairs(variables@), workspace_root@),
{
    match find_value(variables, "CARGO_HOME") {
        Some(configured) => Some(join(workspace_root, configured.as_slice())),
        None => match find_value(variables, "HOME") {
            Some(home) => Some(join(home.as_slice(), ".cargo".as_bytes())),
            None => None,
        },
    }
}

/// The configuration file that is active in a directory.
pub open spec fn active_config(facts: ConfigFacts, directory: Seq<u8>) -> AttemptView<
    Option<Seq<u8>>,
> {
    let legacy = join_path(directory, encode_utf8("config"@));
    let current = join_path(directory, encode_utf8("config.toml"@));
    match known_regular(facts.regular@, legacy, 0) {
        None => AttemptView::Needs(NeedView::Regular(legacy)),
        Some(true) => AttemptView::Done(Some(legacy)),
        Some(false) => match known_regular(facts.regular@, current, 0) {
            None => AttemptView::Needs(NeedView::Regular(current)),
            Some(true) => AttemptView::Done(Some(current)),
            Some(false) => AttemptView::Done(None),
        },
    }
}

/// The view of an attempt at an optional path.
pub open spec fn path_attempt(attempt: Attempt<Option<Vec<u8>>>) -> AttemptView<Option<Seq<u8>>> {
    match attempt {
        Attempt::Done(path) => AttemptView::Done(optional_bytes(path)),
        Attempt::Refused(failure) => AttemptView::Refused(failure@),
        Attempt::Needs(need) => AttemptView::Needs(need@),
    }
}

/// Finds the configuration file that is active in a directory.
pub fn active_config_path(facts: &ConfigFacts, directory: &[u8]) -> (attempt: Attempt<
    Option<Vec<u8>>,
>)
    ensures
        path_attempt(attempt) == active_config(*facts, directory@),
{
    let legacy = join(directory, "config".as_bytes());
    match find_regular(facts, legacy.as_slice()) {
        None => Attempt::Needs(Need::Regular(legacy)),
        Some(true) => Attempt::Done(Some(legacy)),
        Some(false) => {
            let current = join(directory, "config.toml".as_bytes());
            match find_regular(facts, current.as_slice()) {
                None => Attempt::Needs(Need::Regular(current)),
                Some(true) => Attempt::Done(Some(current)),
                Some(false) => Attempt::Done(None),
            }
        },
    }
}

/// The path and all directories above it, the nearest first.
pub open spec fn ancestors_of(path: Seq<u8>) -> Seq<Seq<u8>>
    decreases path.len(),
    via ancestors_shrink
{
    match parent_path(path) {
        None => seq![path],
        Some(above) => seq![path] + ancestors_of(above),
    }
}

#[via_fn]
proof fn ancestors_shrink(path: Seq<u8>) {
    lemma_parent_is_shorter(path);
}

/// A parent directory is written with fewer bytes.
pub proof fn lemma_parent_is_shorter(path: Seq<u8>)
    ensures
        parent_path(path) matches Some(above) ==> above.len() < path.len(),
{
    lemma_spans(path);
    let found = spans(path);
    if found.len() >= 2 {
        let last = found.len() - 1;
        assert(found[last - 1].1 <= found[last].0);
        assert(found[last].0 < found[last].1);
    } else if found.len() == 1 {
        assert(found[0].1 <= path.len());
    }
}

/// The path and all directories above it, the nearest first.
pub fn list_ancestors(path: &[u8]) -> (found: Vec<Vec<u8>>)
    ensures
        byte_strings(found@) == ancestors_of(path@),
    decreases path@.len(),
{
    proof {
        lemma_parent_is_shorter(path@);
    }
    let mut found: Vec<Vec<u8>> = Vec::new();
    found.push(slice_to_vec(path));
    match parent(path) {
        None => {
            assert(byte_strings(found@) =~= seq![path@]);
        },
        Some(above) => {
            let mut rest = list_ancestors(above.as_slice());
            let ghost tail = rest@;
            found.append(&mut rest);
            assert(byte_strings(found@) =~= seq![path@]
                + byte_strings(tail));
        },
    }
    found
}

/// One place where Cargo starts to look for configuration.
#[derive(Debug)]
pub struct ConfigRoot {
    pub discovery: Discovery,
    pub path: Vec<u8>,
}

/// The views of configuration roots.
pub open spec fn root_views(roots: Seq<ConfigRoot>) -> Seq<(Discovery, Seq<u8>)> {
    roots.map_values(|root: ConfigRoot| (root.discovery, root.path@))
}

/// The paths of roots.
pub open spec fn root_paths(roots: Seq<(Discovery, Seq<u8>)>) -> Seq<Seq<u8>> {
    roots.map_values(|root: (Discovery, Seq<u8>)| root.1)
}

/// The roots from Cargo's home and from the `count` farthest of the ancestors.
pub open spec fn roots_among(
    facts: ConfigFacts,
    cargo_home: Option<Seq<u8>>,
    ancestors: Seq<Seq<u8>>,
    count: int,
) -> AttemptView<Seq<(Discovery, Seq<u8>)>>
    decreases count,
{
    if count <= 0 {
        match cargo_home {
            None => AttemptView::Done(Seq::empty()),
            Some(home) => match active_config(facts, home) {
                AttemptView::Done(Some(path)) => AttemptView::Done(
                    seq![(Discovery::CargoHome, path)],
                ),
                AttemptView::Done(None) => AttemptView::Done(Seq::empty()),
                AttemptView::Refused(found) => AttemptView::Refused(found),
                AttemptView::Needs(need) => AttemptView::Needs(need),
            },
        }
    } else {
        match roots_among(facts, cargo_home, ancestors, count - 1) {
            AttemptView::Done(earlier) => {
                let directory = join_path(
                    ancestors[ancestors.len() - count],
                    encode_utf8(".cargo"@),
                );
                match active_config(facts, directory) {
                    AttemptView::Done(Some(path)) => if lists_path(root_paths(earlier), path) {
                        AttemptView::Done(earlier)
                    } else {
                        AttemptView::Done(earlier.push((Discovery::Ancestor, path)))
                    },
                    AttemptView::Done(None) => AttemptView::Done(earlier),
                    AttemptView::Refused(found) => AttemptView::Refused(found),
                    AttemptView::Needs(need) => AttemptView::Needs(need),
                }
            },
            other => other,
        }
    }
}

/// The roots of the configuration of a workspace: Cargo discovers configuration from
/// `CARGO_HOME` and from the ancestors of its working directory, the farthest first.
pub open spec fn discovered_roots(
    facts: ConfigFacts,
    variables: Seq<(Seq<u8>, Seq<u8>)>,
    workspace_root: Seq<u8>,
) -> AttemptView<Seq<(Discovery, Seq<u8>)>> {
    let ancestors = ancestors_of(workspace_root);
    roots_among(
        facts,
        cargo_home_of(variables, workspace_root),
        ancestors,
        ancestors.len() as int,
    )
}

/// The view of an attempt at the roots.
pub open spec fn roots_attempt(attempt: Attempt<Vec<ConfigRoot>>) -> AttemptView<
    Seq<(Discovery, Seq<u8>)>,
> {
    match attempt {
        Attempt::Done(roots) => AttemptView::Done(root_views(roots@)),
        Attempt::Refused(failure) => AttemptView::Refused(failure@),
        Attempt::Needs(need) => AttemptView::Needs(need@),
    }
}

proof fn lemma_roots_prefix(
    facts: ConfigFacts,
    cargo_home: Option<Seq<u8>>,
    ancestors: Seq<Seq<u8>>,
    count: int,
    more: int,
)
    requires
        0 <= count <= more,
        !(roots_among(facts, cargo_home, ancestors, count) is Done),
    ensures
        roots_among(facts, cargo_home, ancestors, more) == roots_among(
            facts,
            cargo_home,
            ancestors,
            count,
        ),
    decreases more - count,
{
    if count < more {
        lemma_roots_prefix(facts, cargo_home, ancestors, count, more - 1);
    }
}

fn holds_root(roots: &Vec<ConfigRoot>, path: &[u8]) -> (found: bool)
    ensures
        found == lists_path(root_paths(root_views(roots@)), path@),
{
    let ghost views = root_paths(root_views(roots@));
    let mut index: usize = 0;
    while index < roots.len()
        invariant
            index <= roots@.len(),
            views == root_paths(root_views(roots@)),
            forall|i: int| 0 <= i < index ==> parts(#[trigger] views[i]) != parts(path@),
        decreases roots@.len() - index,
    {
        assert(views[index as int] == roots@[index as int].path@);
        if same_path(roots[index].path.as_slice(), path) {
            return true;
        }
        index = index + 1;
    }
    false
}

/// Finds the roots of the configuration of a workspace.
pub fn discover_roots(facts: &ConfigFacts, variables: &Vec<Variable>, workspace_root: &[u8]) -> (
    attempt: Attempt<Vec<ConfigRoot>>)
    ensures
        roots_attempt(attempt) == discovered_roots(
            *facts,
            variable_pairs(variables@),
            workspace_root@,
        ),
{
    let ghost home_view = cargo_home_of(variable_pairs(variables@), workspace_root@);
    let ancestors = list_ancestors(workspace_root);
    let ghost views = ancestors_of(workspace_root@);
    assert(views.len() == ancestors@.len());
    let ghost total = views.len() as int;
    let mut roots: Vec<ConfigRoot> = Vec::new();
    assert(root_views(roots@) =~= Seq::empty());
    if let Some(home) = cargo_home(variables, workspace_root) {
        match active_config_path(facts, home.as_slice()) {
            Attempt::Done(Some(path)) => {
                roots.push(ConfigRoot { discovery: Discovery::CargoHome, path });
                assert(root_views(roots@) =~= seq![(Discovery::CargoHome, path@)]);
            },
            Attempt::Done(None) => {},
            Attempt::Refused(failure) => {
                proof {
                    assert(!(roots_among(*facts, home_view, views, 0) is Done));
                    lemma_roots_prefix(*facts, home_view, views, 0, total);
                }
                return Attempt::Refused(failure);
            },
            Attempt::Needs(need) => {
                proof {
                    assert(!(roots_among(*facts, home_view, views, 0) is Done));
                    lemma_roots_prefix(*facts, home_view, views, 0, total);
                }
                return Attempt::Needs(need);
            },
        }
    }
    let mut count: usize = 0;
    while count < ancestors.len()
        invariant
            count <= ancestors@.len() == views.len() == total,
            views == byte_strings(ancestors@),
            views == ancestors_of(workspace_root@),
            home_view == cargo_home_of(variable_pairs(variables@), workspace_root@),
            roots_among(*facts, home_view, views, count as int) == AttemptView::Done(
                root_views(roots@),
            ),
        decreases ancestors@.len() - count,
    {
        let place: usize = ancestors.len() - 1 - count;
        assert(views[place as int] == ancestors@[place as int]@);
        let directory = join(ancestors[place].as_slice(), ".cargo".as_bytes());
        match active_config_path(facts, directory.as_slice()) {
            Attempt::Done(Some(path)) => {
                if !holds_root(&roots, path.as_slice()) {
                    let ghost before = roots@;
                    roots.push(ConfigRoot { discovery: Discovery::Ancestor, path });
                    assert(root_views(roots@) =~= root_views(before).push(
                        (Discovery::Ancestor, path@),
                    ));
                }
            },
            Attempt::Done(None) => {},
            Attempt::Refused(failure) => {
                proof {
                    assert(!(roots_among(*facts, home_view, views, count + 1) is Done));
                    lemma_roots_prefix(*facts, home_view, views, count + 1, total);
                }
                return Attempt::Refused(failure);
            },
            Attempt::Needs(need) => {
                proof {
                    assert(!(roots_among(*facts, home_view, views, count + 1) is Done));
                    lemma_roots_prefix(*facts, home_view, views, count + 1, total);
                }
                return Attempt::Needs(need);
            },
        }
        count = count + 1;
    }
    Attempt::Done(roots)
}

// The environment.

/// Compiler-input environment variables recorded as bounded digests.
pub open spec fn environment_names() -> Seq<Seq<char>> {
    seq![
        "CARGO_ENCODED_RUSTFLAGS"@,
        "RUSTFLAGS"@,
        "CARGO_BUILD_RUSTFLAGS"@,
        "CARGO_TARGET_X86_64_UNKNOWN_LINUX_GNU_RUSTFLAGS"@,
        "RUSTC"@,
        "RUSTC_WRAPPER"@,
        "RUSTC_WORKSPACE_WRAPPER"@,
        "CARGO_BUILD_RUSTC"@,
        "CARGO_BUILD_RUSTC_WRAPPER"@,
        "CARGO_BUILD_RUSTC_WORKSPACE_WRAPPER"@,
        "CARGO_BUILD_TARGET"@,
        "CARGO_HOME"@,
    ]
}

fn environment_labels() -> (names: Vec<&'static str>)
    ensures
        names@.map_values(|name: &'static str| name@) == environment_names(),
{
    let mut names: Vec<&'static str> = Vec::new();
    names.push("CARGO_ENCODED_RUSTFLAGS");
    names.push("RUSTFLAGS");
    names.push("CARGO_BUILD_RUSTFLAGS");
    names.push("CARGO_TARGET_X86_64_UNKNOWN_LINUX_GNU_RUSTFLAGS");
    names.push("RUSTC");
    names.push("RUSTC_WRAPPER");
    names.push("RUSTC_WORKSPACE_WRAPPER");
    names.push("CARGO_BUILD_RUSTC");
    names.push("CARGO_BUILD_RUSTC_WRAPPER");
    names.push("CARGO_BUILD_RUSTC_WORKSPACE_WRAPPER");
    names.push("CARGO_BUILD_TARGET");
    names.push("CARGO_HOME");
    assert(names@.map_values(|name: &'static str| name@) =~= environment_names());
    names
}

/// What is recorded of one variable: absence, emptiness, or a digest of its value.
pub open spec fn environment_input(
    variables: Seq<(Seq<u8>, Seq<u8>)>,
    name: Seq<char>,
) -> EnvironmentView {
    match value_of(variables, name) {
        None => EnvironmentView { name, presence: Presence::Absent, sha256: None },
        Some(value) => if value.len() == 0 {
            EnvironmentView { name, presence: Presence::Empty, sha256: None }
        } else {
            EnvironmentView { name, presence: Presence::Given, sha256: Some(digest_of(value)) }
        },
    }
}

/// What is recorded of the compiler-input environment.
pub open spec fn recorded_environment(variables: Seq<(Seq<u8>, Seq<u8>)>) -> Seq<EnvironmentView> {
    environment_names().map_values(|name: Seq<char>| environment_input(variables, name))
}

/// Records the compiler-input environment.
pub fn environment_inputs(variables: &Vec<Variable>) -> (inputs: Vec<EnvironmentInput>)
    ensures
        environment_views(inputs@) == recorded_environment(variable_pairs(variables@)),
{
    let names = environment_labels();
    let ghost labels = environment_names();
    let ghost pairs = variable_pairs(variables@);
    let mut inputs: Vec<EnvironmentInput> = Vec::new();
    let mut index: usize = 0;
    while index < names.len()
        invariant
            index <= names@.len(),
            pairs == variable_pairs(variables@),
            labels == environment_names(),
            names@.map_values(|name: &'static str| name@) == labels,
            inputs@.len() == index,
            forall|i: int|
                0 <= i < index ==> (#[trigger] inputs@[i])@ == environment_input(
                    pairs,
                    labels[i],
                ),
        decreases names@.len() - index,
    {
        let name: &'static str = names[index];
        assert(labels[index as int] == name@);
        let input = match find_value(variables, name) {
            None => EnvironmentInput { name, presence: Presence::Absent, sha256: None },
            Some(value) => if value.len() == 0 {
                EnvironmentInput { name, presence: Presence::Empty, sha256: None }
            } else {
                EnvironmentInput {
                    name,
                    presence: Presence::Given,
                    sha256: Some(digest(value.as_slice())),
                }
            },
        };
        inputs.push(input);
        index = index + 1;
    }
    assert(labels.len() == names@.len());
    assert(environment_views(inputs@) =~= recorded_environment(pairs));
    inputs
}

// The scan.

/// The walk from the first `count` roots.
pub open spec fn walked(
    facts: ConfigFacts,
    include_supported: bool,
    roots: Seq<(Discovery, Seq<u8>)>,
    count: int,
) -> AttemptView<ScannerView>
    decreases count,
{
    if count <= 0 {
        AttemptView::Done(ScannerView { declares_include: false, sources: Seq::empty() })
    } else {
        match walked(facts, include_supported, roots, count - 1) {
            AttemptView::Done(scanner) => loaded(
                facts,
                include_supported,
                scanner,
                Seq::empty(),
                roots[count - 1].1,
                roots[count - 1].0,
            ),
            other => other,
        }
    }
}

/// The configuration graph of a workspace, or why it is refused, or what is needed to tell.
pub open spec fn scanned(
    facts: ConfigFacts,
    variables: Seq<(Seq<u8>, Seq<u8>)>,
    workspace_root: Seq<u8>,
    cargo_version: Seq<char>,
) -> AttemptView<GraphView> {
    match minor_of(cargo_version) {
        None => AttemptView::Refused(version_refusal()),
        Some(minor) => match discovered_roots(facts, variables, workspace_root) {
            AttemptView::Refused(found) => AttemptView::Refused(found),
            AttemptView::Needs(need) => AttemptView::Needs(need),
            AttemptView::Done(roots) => match walked(
                facts,
                minor >= INCLUDE_STABLE_MINOR,
                roots,
                roots.len() as int,
            ) {
                AttemptView::Refused(found) => AttemptView::Refused(found),
                AttemptView::Needs(need) => AttemptView::Needs(need),
                AttemptView::Done(scanner) => AttemptView::Done(
                    GraphView {
                        cargo_minor: minor,
                        include_supported: minor >= INCLUDE_STABLE_MINOR,
                        declares_include: scanner.declares_include,
                        sources: scanner.sources,
                        environment_inputs: recorded_environment(variables),
                    },
                ),
            },
        },
    }
}

/// The view of an attempt at a graph.
pub open spec fn graph_attempt(attempt: Attempt<ConfigGraph>) -> AttemptView<GraphView> {
    match attempt {
        Attempt::Done(graph) => AttemptView::Done(graph@),
        Attempt::Refused(failure) => AttemptView::Refused(failure@),
        Attempt::Needs(need) => AttemptView::Needs(need@),
    }
}

proof fn lemma_walked_prefix(
    facts: ConfigFacts,
    include_supported: bool,
    roots: Seq<(Discovery, Seq<u8>)>,
    count: int,
    more: int,
)
    requires
        0 <= count <= more,
        !(walked(facts, include_supported, roots, count) is Done),
    ensures
        walked(facts, include_supported, roots, more) == walked(
            facts,
            include_supported,
            roots,
            count,
        ),
    decreases more - count,
{
    if count < more {
        lemma_walked_prefix(facts, include_supported, roots, count, more - 1);
    }
}

/// Scans the configuration graph Cargo loads for a build anchored at `workspace_root`, which is
/// the working directory that Cargo gets.
pub fn scan(
    facts: &ConfigFacts,
    variables: &Vec<Variable>,
    workspace_root: &[u8],
    cargo_version: &str,
) -> (attempt: Attempt<ConfigGraph>)
    ensures
        graph_attempt(attempt) == scanned(
            *facts,
            variable_pairs(variables@),
            workspace_root@,
            cargo_version@,
        ),
{
    let cargo_minor: u32 = match parse_minor(cargo_version) {
        Ok(minor) => minor,
        Err(failure) => return Attempt::Refused(failure),
    };
    let include_supported: bool = cargo_minor >= INCLUDE_STABLE_MINOR;
    let roots = match discover_roots(facts, variables, workspace_root) {
        Attempt::Done(roots) => roots,
        Attempt::Refused(failure) => return Attempt::Refused(failure),
        Attempt::Needs(need) => return Attempt::Needs(need),
    };
    let ghost views = root_views(roots@);
    let stack: Vec<Vec<u8>> = Vec::new();
    assert(byte_strings(stack@) =~= Seq::empty());
    let mut scanner = Scanner { declares_include: false, sources: Vec::new() };
    let mut index: usize = 0;
    assert(scanner@ =~= ScannerView { declares_include: false, sources: Seq::empty() });
    while index < roots.len()
        invariant
            index <= roots@.len(),
            views == root_views(roots@),
            byte_strings(stack@) == Seq::<Seq<u8>>::empty(),
            walked(*facts, include_supported, views, index as int) == AttemptView::Done(scanner@),
            minor_of(cargo_version@) == Some(cargo_minor),
            include_supported == (cargo_minor >= INCLUDE_STABLE_MINOR),
            discovered_roots(*facts, variable_pairs(variables@), workspace_root@)
                == AttemptView::Done(views),
        decreases roots@.len() - index,
    {
        let root = &roots[index];
        assert(views[index as int] == (root.discovery, root.path@));
        match scanner.load(
            facts,
            include_supported,
            &stack,
            root.path.as_slice(),
            root.discovery,
        ) {
            Attempt::Done(after) => {
                scanner = after;
            },
            Attempt::Refused(failure) => {
                proof {
                    assert(!(walked(*facts, include_supported, views, index + 1) is Done));
                    lemma_walked_prefix(
                        *facts,
                        include_supported,
                        views,
                        index + 1,
                        views.len() as int,
                    );
                }
                return Attempt::Refused(failure);
            },
            Attempt::Needs(need) => {
                proof {
                    assert(!(walked(*facts, include_supported, views, index + 1) is Done));
                    lemma_walked_prefix(
                        *facts,
                        include_supported,
                        views,
                        index + 1,
                        views.len() as int,
                    );
                }
                return Attempt::Needs(need);
            },
        }
        index = index + 1;
    }
    assert(views.len() == roots@.len());
    Attempt::Done(
        ConfigGraph {
            cargo_minor,
            include_supported,
            declares_include: scanner.declares_include,
            sources: scanner.sources,
            environment_inputs: environment_inputs(variables),
        },
    )
}

// Laws.

/// Where a path leads, by its known components.
pub open spec fn leads_to(facts: ConfigFacts, path: Seq<u8>, target: Seq<u8>) -> bool {
    match known_canonical(facts.canonical@, path, 0) {
        Some(Ok(canonical)) => parts(canonical@) == parts(target),
        _ => false,
    }
}

/// Whether one of the first `count` sources is the one that `path` leads to.
pub open spec fn listed_before(
    facts: ConfigFacts,
    sources: Seq<SourceView>,
    path: Seq<u8>,
    count: int,
) -> bool {
    exists|j: int|
        0 <= j < count && j < sources.len() && leads_to(facts, path, (#[trigger] sources[j]).path)
}

/// Whether every inclusion of the source at `index` was loaded before it, or may be absent.
pub open spec fn settled(facts: ConfigFacts, sources: Seq<SourceView>, index: int) -> bool {
    forall|e: int|
        0 <= e < sources[index].includes.len() ==> {
            let edge = #[trigger] sources[index].includes[e];
            if edge.present {
                listed_before(facts, sources, edge.resolved, index)
            } else {
                edge.optional
            }
        }
}

/// What holds of everything the walk gathers at a depth.
pub open spec fn gathered(
    facts: ConfigFacts,
    include_supported: bool,
    scanner: ScannerView,
    depth: int,
) -> bool {
    &&& forall|i: int, j: int|
        0 <= i < j < scanner.sources.len() ==> parts((#[trigger] scanner.sources[i]).path) != parts(
            (#[trigger] scanner.sources[j]).path,
        )
    &&& forall|i: int|
        0 <= i < scanner.sources.len() ==> #[trigger] settled(facts, scanner.sources, i)
    &&& !include_supported ==> !scanner.declares_include && forall|i: int|
        0 <= i < scanner.sources.len() ==> (#[trigger] scanner.sources[i]).includes.len() == 0
    &&& scanner.sources.len() <= SOURCE_LIMIT + INCLUDE_DEPTH_LIMIT - depth
}

/// Whether a refusal carries a configuration-source reason or the compiler override.
pub open spec fn stable_refusal(refused: GraphRefusal) -> bool {
    is_config_source_reason(refused.reason) || refused.reason == COMPILER_OVERRIDE_REASON@
}

proof fn lemma_settled_kept(
    facts: ConfigFacts,
    before: Seq<SourceView>,
    after: Seq<SourceView>,
    index: int,
)
    requires
        before.is_prefix_of(after),
        0 <= index < before.len(),
        settled(facts, before, index),
    ensures
        settled(facts, after, index),
{
    assert(after[index] == before[index]);
    assert forall|e: int| 0 <= e < after[index].includes.len() implies {
        let edge = #[trigger] after[index].includes[e];
        if edge.present {
            listed_before(facts, after, edge.resolved, index)
        } else {
            edge.optional
        }
    } by {
        let edge = before[index].includes[e];
        if edge.present {
            assert(listed_before(facts, before, edge.resolved, index));
            let j = choose|j: int|
                0 <= j < index && j < before.len() && leads_to(
                    facts,
                    edge.resolved,
                    (#[trigger] before[j]).path,
                );
            assert(after[j] == before[j]);
            assert(leads_to(facts, edge.resolved, after[j].path));
        }
    }
}

proof fn lemma_source_edges(facts: ConfigFacts, include_supported: bool, canonical: Seq<u8>)
    ensures
        match source_edges(facts, include_supported, canonical) {
            AttemptView::Done((_, edges)) => !include_supported ==> edges.len() == 0,
            AttemptView::Refused(refused) => stable_refusal(refused),
            AttemptView::Needs(_) => true,
        },
{
    match known_source(facts.sources@, canonical, 0) {
        Some(fact) => match source_outcome(canonical, fact) {
            Ok((text, _)) => match toml_document(text) {
                Ok(document) => match include_outcome(document, canonical) {
                    Ok(declared) => {
                        lemma_never_refused(
                            facts,
                            parent_path(canonical)->0,
                            declared,
                            declared.len() as int,
                        );
                    },
                    Err(_) => {},
                },
                Err(_) => {},
            },
            Err(_) => {},
        },
        None => {},
    }
}

proof fn lemma_never_refused(
    facts: ConfigFacts,
    directory: Seq<u8>,
    declared: Seq<(Seq<char>, bool)>,
    count: int,
)
    ensures
        !(resolved_edges(facts, directory, declared, count) is Refused),
    decreases count,
{
    if count > 0 {
        lemma_never_refused(facts, directory, declared, count - 1);
    }
}

proof fn lemma_loaded(
    facts: ConfigFacts,
    include_supported: bool,
    scanner: ScannerView,
    stack: Seq<Seq<u8>>,
    path: Seq<u8>,
    discovery: Discovery,
)
    requires
        gathered(facts, include_supported, scanner, stack.len() as int),
        stack.len() <= INCLUDE_DEPTH_LIMIT,
    ensures
        match loaded(facts, include_supported, scanner, stack, path, discovery) {
            AttemptView::Done(after) => {
                &&& gathered(facts, include_supported, after, stack.len() as int)
                &&& scanner.sources.is_prefix_of(after.sources)
                &&& listed_before(facts, after.sources, path, after.sources.len() as int)
                &&& forall|i: int|
                    #![trigger stack[i]]
                    0 <= i < stack.len() && lists_path(source_paths(after.sources), stack[i])
                        ==> lists_path(source_paths(scanner.sources), stack[i])
            },
            AttemptView::Refused(refused) => stable_refusal(refused),
            AttemptView::Needs(_) => true,
        },
    decreases INCLUDE_DEPTH_LIMIT + 1 - stack.len(), 0int, 0int,
{
    match known_canonical(facts.canonical@, path, 0) {
        Some(Ok(found)) => {
            let canonical = found@;
            if lists_path(stack, canonical) {
            } else if lists_path(source_paths(scanner.sources), canonical) {
                let i = choose|i: int|
                    0 <= i < source_paths(scanner.sources).len() && parts(
                        #[trigger] source_paths(scanner.sources)[i],
                    ) == parts(canonical);
                assert(source_paths(scanner.sources)[i] == scanner.sources[i].path);
                assert(leads_to(facts, path, scanner.sources[i].path));
            } else if stack.len() >= INCLUDE_DEPTH_LIMIT || scanner.sources.len()
                >= SOURCE_LIMIT {
            } else {
                lemma_source_edges(facts, include_supported, canonical);
                match source_edges(facts, include_supported, canonical) {
                    AttemptView::Done((sha256, edges)) => {
                        let entered = ScannerView {
                            declares_include: scanner.declares_include || edges.len() > 0,
                            sources: scanner.sources,
                        };
                        let deeper = stack.push(canonical);
                        lemma_loaded_includes(
                            facts,
                            include_supported,
                            entered,
                            deeper,
                            edges,
                            0,
                            canonical,
                        );
                        match loaded_includes(
                            facts,
                            include_supported,
                            entered,
                            deeper,
                            edges,
                            0,
                            canonical,
                        ) {
                            AttemptView::Done(after) => {
                                lemma_source_added(
                                    facts,
                                    include_supported,
                                    scanner,
                                    after,
                                    stack,
                                    path,
                                    canonical,
                                    SourceView {
                                        path: canonical,
                                        sha256,
                                        discovery,
                                        includes: edges,
                                    },
                                );
                            },
                            _ => {},
                        }
                    },
                    _ => {},
                }
            }
        },
        _ => {},
    }
}

proof fn lemma_source_added(
    facts: ConfigFacts,
    include_supported: bool,
    scanner: ScannerView,
    after: ScannerView,
    stack: Seq<Seq<u8>>,
    path: Seq<u8>,
    canonical: Seq<u8>,
    source: SourceView,
)
    requires
        stack.len() < INCLUDE_DEPTH_LIMIT,
        source.path == canonical,
        leads_to(facts, path, canonical),
        !lists_path(stack, canonical),
        !lists_path(source_paths(scanner.sources), canonical),
        gathered(facts, include_supported, after, (stack.len() + 1) as int),
        scanner.sources.is_prefix_of(after.sources),
        !include_supported ==> source.includes.len() == 0,
        forall|i: int|
            #![trigger stack.push(canonical)[i]]
            0 <= i < stack.len() + 1 && lists_path(
                source_paths(after.sources),
                stack.push(canonical)[i],
            ) ==> lists_path(source_paths(scanner.sources), stack.push(canonical)[i]),
        forall|e: int|
            0 <= e < source.includes.len() ==> {
                let edge = #[trigger] source.includes[e];
                if edge.present {
                    listed_before(facts, after.sources, edge.resolved, after.sources.len() as int)
                } else {
                    edge.optional
                }
            },
    ensures
        ({
            let longer = ScannerView {
                declares_include: after.declares_include,
                sources: after.sources.push(source),
            };
            &&& gathered(facts, include_supported, longer, stack.len() as int)
            &&& scanner.sources.is_prefix_of(longer.sources)
            &&& listed_before(facts, longer.sources, path, longer.sources.len() as int)
            &&& forall|i: int|
                #![trigger stack[i]]
                0 <= i < stack.len() && lists_path(source_paths(longer.sources), stack[i])
                    ==> lists_path(source_paths(scanner.sources), stack[i])
        }),
{
    let longer = after.sources.push(source);
    let last = after.sources.len() as int;
    assert(after.sources.is_prefix_of(longer)) by {
        assert(longer.take(last) =~= after.sources);
    }
    assert(stack.push(canonical)[stack.len() as int] == canonical);
    assert(!lists_path(source_paths(after.sources), canonical));
    assert forall|i: int, j: int| 0 <= i < j < longer.len() implies parts(
        (#[trigger] longer[i]).path,
    ) != parts((#[trigger] longer[j]).path) by {
        if j == last {
            assert(source_paths(after.sources)[i] == after.sources[i].path);
            assert(longer[i] == after.sources[i]);
        } else {
            assert(longer[i] == after.sources[i] && longer[j] == after.sources[j]);
        }
    }
    assert forall|i: int| 0 <= i < longer.len() implies #[trigger] settled(facts, longer, i) by {
        if i < last {
            assert(settled(facts, after.sources, i));
            lemma_settled_kept(facts, after.sources, longer, i);
        } else {
            assert forall|e: int| 0 <= e < longer[i].includes.len() implies {
                let edge = #[trigger] longer[i].includes[e];
                if edge.present {
                    listed_before(facts, longer, edge.resolved, i)
                } else {
                    edge.optional
                }
            } by {
                let edge = source.includes[e];
                if edge.present {
                    let j = choose|j: int|
                        0 <= j < last && j < after.sources.len() && leads_to(
                            facts,
                            edge.resolved,
                            (#[trigger] after.sources[j]).path,
                        );
                    assert(longer[j] == after.sources[j]);
                    assert(leads_to(facts, edge.resolved, longer[j].path));
                }
            }
        }
    }
    assert(leads_to(facts, path, longer[last].path));
    assert(scanner.sources.is_prefix_of(longer)) by {
        assert(longer.take(scanner.sources.len() as int) =~= scanner.sources);
    }
    assert forall|i: int|
        #![trigger stack[i]]
        0 <= i < stack.len() && lists_path(source_paths(longer), stack[i]) implies lists_path(
        source_paths(scanner.sources),
        stack[i],
    ) by {
        let k = choose|k: int|
            0 <= k < source_paths(longer).len() && parts(#[trigger] source_paths(longer)[k])
                == parts(stack[i]);
        if k == last {
            assert(source_paths(longer)[k] == canonical);
            assert(lists_path(stack, canonical));
        } else {
            assert(source_paths(longer)[k] == source_paths(after.sources)[k]);
            assert(lists_path(source_paths(after.sources), stack[i]));
            assert(stack.push(canonical)[i] == stack[i]);
        }
    }
    assert forall|i: int| 0 <= i < longer.len() && !include_supported implies (
    #[trigger] longer[i]).includes.len() == 0 by {
        if i < last {
            assert(longer[i] == after.sources[i]);
        }
    }
}

proof fn lemma_loaded_includes(
    facts: ConfigFacts,
    include_supported: bool,
    scanner: ScannerView,
    stack: Seq<Seq<u8>>,
    edges: Seq<EdgeView>,
    index: int,
    including: Seq<u8>,
)
    requires
        gathered(facts, include_supported, scanner, stack.len() as int),
        stack.len() <= INCLUDE_DEPTH_LIMIT,
        0 <= index <= edges.len(),
        forall|e: int|
            0 <= e < index ==> {
                let edge = #[trigger] edges[e];
                if edge.present {
                    listed_before(
                        facts,
                        scanner.sources,
                        edge.resolved,
                        scanner.sources.len() as int,
                    )
                } else {
                    edge.optional
                }
            },
    ensures
        match loaded_includes(
            facts,
            include_supported,
            scanner,
            stack,
            edges,
            index,
            including,
        ) {
            AttemptView::Done(after) => {
                &&& gathered(facts, include_supported, after, stack.len() as int)
                &&& scanner.sources.is_prefix_of(after.sources)
                &&& forall|i: int|
                    #![trigger stack[i]]
                    0 <= i < stack.len() && lists_path(source_paths(after.sources), stack[i])
                        ==> lists_path(source_paths(scanner.sources), stack[i])
                &&& forall|e: int|
                    0 <= e < edges.len() ==> {
                        let edge = #[trigger] edges[e];
                        if edge.present {
                            listed_before(
                                facts,
                                after.sources,
                                edge.resolved,
                                after.sources.len() as int,
                            )
                        } else {
                            edge.optional
                        }
                    }
            },
            AttemptView::Refused(refused) => stable_refusal(refused),
            AttemptView::Needs(_) => true,
        },
    decreases INCLUDE_DEPTH_LIMIT + 1 - stack.len(), 1int, edges.len() - index,
{
    if index < edges.len() {
        if edges[index].present {
            lemma_loaded(
                facts,
                include_supported,
                scanner,
                stack,
                edges[index].resolved,
                Discovery::Include,
            );
            match loaded(
                facts,
                include_supported,
                scanner,
                stack,
                edges[index].resolved,
                Discovery::Include,
            ) {
                AttemptView::Done(after) => {
                    assert forall|e: int| 0 <= e < index + 1 implies {
                        let edge = #[trigger] edges[e];
                        if edge.present {
                            listed_before(
                                facts,
                                after.sources,
                                edge.resolved,
                                after.sources.len() as int,
                            )
                        } else {
                            edge.optional
                        }
                    } by {
                        let edge = edges[e];
                        if e < index && edge.present {
                            let j = choose|j: int|
                                0 <= j < scanner.sources.len() && leads_to(
                                    facts,
                                    edge.resolved,
                                    (#[trigger] scanner.sources[j]).path,
                                );
                            assert(after.sources[j] == scanner.sources[j]);
                            assert(leads_to(facts, edge.resolved, after.sources[j].path));
                        }
                    }
                    lemma_loaded_includes(
                        facts,
                        include_supported,
                        after,
                        stack,
                        edges,
                        index + 1,
                        including,
                    );
                },
                _ => {},
            }
        } else if edges[index].optional {
            lemma_loaded_includes(
                facts,
                include_supported,
                scanner,
                stack,
                edges,
                index + 1,
                including,
            );
        }
    }
}

proof fn lemma_walked(
    facts: ConfigFacts,
    include_supported: bool,
    roots: Seq<(Discovery, Seq<u8>)>,
    count: int,
)
    requires
        0 <= count <= roots.len(),
    ensures
        match walked(facts, include_supported, roots, count) {
            AttemptView::Done(after) => {
                &&& gathered(facts, include_supported, after, 0)
                &&& forall|i: int|
                    #![trigger roots[i]]
                    0 <= i < count ==> listed_before(
                        facts,
                        after.sources,
                        roots[i].1,
                        after.sources.len() as int,
                    )
            },
            AttemptView::Refused(refused) => stable_refusal(refused),
            AttemptView::Needs(_) => true,
        },
    decreases count,
{
    if count > 0 {
        lemma_walked(facts, include_supported, roots, count - 1);
        match walked(facts, include_supported, roots, count - 1) {
            AttemptView::Done(scanner) => {
                lemma_loaded(
                    facts,
                    include_supported,
                    scanner,
                    Seq::empty(),
                    roots[count - 1].1,
                    roots[count - 1].0,
                );
                match walked(facts, include_supported, roots, count) {
                    AttemptView::Done(after) => {
                        assert forall|i: int|
                            #![trigger roots[i]]
                            0 <= i < count implies listed_before(
                            facts,
                            after.sources,
                            roots[i].1,
                            after.sources.len() as int,
                        ) by {
                            if i < count - 1 {
                                let j = choose|j: int|
                                    0 <= j < scanner.sources.len() && leads_to(
                                        facts,
                                        roots[i].1,
                                        (#[trigger] scanner.sources[j]).path,
                                    );
                                assert(after.sources[j] == scanner.sources[j]);
                                assert(leads_to(facts, roots[i].1, after.sources[j].path));
                            }
                        }
                    },
                    _ => {},
                }
            },
            _ => {},
        }
    }
}

proof fn lemma_roots_never_refused(
    facts: ConfigFacts,
    cargo_home: Option<Seq<u8>>,
    ancestors: Seq<Seq<u8>>,
    count: int,
)
    ensures
        !(roots_among(facts, cargo_home, ancestors, count) is Refused),
    decreases count,
{
    if count > 0 {
        lemma_roots_never_refused(facts, cargo_home, ancestors, count - 1);
    }
}

/// A scanned graph lists no source twice, lists every included source before the source that
/// includes it, skips only inclusions that may be absent, lists every discovered root, and stays
/// bounded.
pub proof fn law_graphs_are_in_load_order(
    facts: ConfigFacts,
    variables: Seq<(Seq<u8>, Seq<u8>)>,
    workspace_root: Seq<u8>,
    cargo_version: Seq<char>,
)
    requires
        scanned(facts, variables, workspace_root, cargo_version) is Done,
    ensures
        ({
            let graph = scanned(facts, variables, workspace_root, cargo_version)->Done_0;
            let roots = discovered_roots(facts, variables, workspace_root)->Done_0;
            &&& forall|i: int, j: int|
                0 <= i < j < graph.sources.len() ==> parts((#[trigger] graph.sources[i]).path)
                    != parts((#[trigger] graph.sources[j]).path)
            &&& forall|i: int|
                0 <= i < graph.sources.len() ==> #[trigger] settled(facts, graph.sources, i)
            &&& forall|i: int|
                #![trigger roots[i]]
                0 <= i < roots.len() ==> listed_before(
                    facts,
                    graph.sources,
                    roots[i].1,
                    graph.sources.len() as int,
                )
            &&& graph.sources.len() <= SOURCE_LIMIT + INCLUDE_DEPTH_LIMIT
        }),
{
    let minor = minor_of(cargo_version)->0;
    let roots = discovered_roots(facts, variables, workspace_root)->Done_0;
    lemma_walked(facts, minor >= INCLUDE_STABLE_MINOR, roots, roots.len() as int);
}

/// Below the release that stabilized inclusions, an accepted graph declares none.
pub proof fn law_old_releases_have_no_includes(
    facts: ConfigFacts,
    variables: Seq<(Seq<u8>, Seq<u8>)>,
    workspace_root: Seq<u8>,
    cargo_version: Seq<char>,
)
    requires
        scanned(facts, variables, workspace_root, cargo_version) is Done,
    ensures
        ({
            let graph = scanned(facts, variables, workspace_root, cargo_version)->Done_0;
            graph.cargo_minor < INCLUDE_STABLE_MINOR ==> {
                &&& !graph.include_supported
                &&& !graph.declares_include
                &&& forall|i: int|
                    0 <= i < graph.sources.len() ==> (
                    #[trigger] graph.sources[i]).includes.len() == 0
            }
        }),
{
    let minor = minor_of(cargo_version)->0;
    let roots = discovered_roots(facts, variables, workspace_root)->Done_0;
    lemma_walked(facts, minor >= INCLUDE_STABLE_MINOR, roots, roots.len() as int);
}

/// A graph is only ever refused for a configuration-source reason or a compiler override.
pub proof fn law_graph_refusals_are_stable(
    facts: ConfigFacts,
    variables: Seq<(Seq<u8>, Seq<u8>)>,
    workspace_root: Seq<u8>,
    cargo_version: Seq<char>,
)
    ensures
        scanned(facts, variables, workspace_root, cargo_version) matches AttemptView::Refused(
            refused,
        ) ==> stable_refusal(refused),
{
    match minor_of(cargo_version) {
        None => {},
        Some(minor) => {
            let ancestors = ancestors_of(workspace_root);
            lemma_roots_never_refused(
                facts,
                cargo_home_of(variables, workspace_root),
                ancestors,
                ancestors.len() as int,
            );
            match discovered_roots(facts, variables, workspace_root) {
                AttemptView::Done(roots) => {
                    lemma_walked(facts, minor >= INCLUDE_STABLE_MINOR, roots, roots.len() as int);
                },
                _ => {},
            }
        },
    }
}

/// In a directory the file `config` is active where it is there, then `config.toml`, then none.
pub proof fn law_plain_configs_are_preferred(facts: ConfigFacts, directory: Seq<u8>)
    ensures
        ({
            let legacy = join_path(directory, encode_utf8("config"@));
            let current = join_path(directory, encode_utf8("config.toml"@));
            let plain = known_regular(facts.regular@, legacy, 0);
            let suffixed = known_regular(facts.regular@, current, 0);
            &&& plain == Some(true) ==> active_config(facts, directory) == AttemptView::Done(
                Some(legacy),
            )
            &&& plain == Some(false) && suffixed == Some(true) ==> active_config(facts, directory)
                == AttemptView::Done(Some(current))
            &&& plain == Some(false) && suffixed == Some(false) ==> active_config(facts, directory)
                == AttemptView::Done(None::<Seq<u8>>)
            &&& active_config(facts, directory) is Done ==> plain is Some
        }),
{
}

proof fn lemma_roots_found(
    facts: ConfigFacts,
    cargo_home: Option<Seq<u8>>,
    ancestors: Seq<Seq<u8>>,
    count: int,
)
    requires
        0 <= count <= ancestors.len(),
        roots_among(facts, cargo_home, ancestors, count) is Done,
    ensures
        ({
            let found = roots_among(facts, cargo_home, ancestors, count)->Done_0;
            &&& forall|k: int|
                #![trigger ancestors[k]]
                ancestors.len() - count <= k < ancestors.len() ==> {
                    let active = active_config(
                        facts,
                        join_path(ancestors[k], encode_utf8(".cargo"@)),
                    );
                    active is Done && (active->Done_0 is Some ==> lists_path(
                        root_paths(found),
                        active->Done_0->0,
                    ))
                }
            &&& cargo_home is Some ==> {
                let active = active_config(facts, cargo_home->0);
                active is Done && (active->Done_0 is Some ==> found.len() > 0 && found[0] == (
                    Discovery::CargoHome,
                    active->Done_0->0,
                ))
            }
        }),
    decreases count,
{
    if count > 0 {
        lemma_roots_found(facts, cargo_home, ancestors, count - 1);
        let earlier = roots_among(facts, cargo_home, ancestors, count - 1)->Done_0;
        let found = roots_among(facts, cargo_home, ancestors, count)->Done_0;
        let place = ancestors.len() - count;
        let active = active_config(facts, join_path(ancestors[place], encode_utf8(".cargo"@)));
        assert(earlier.is_prefix_of(found));
        assert forall|path: Seq<u8>| #[trigger] lists_path(root_paths(earlier), path) implies
            lists_path(root_paths(found), path) by {
            let i = choose|i: int|
                0 <= i < root_paths(earlier).len() && parts(#[trigger] root_paths(earlier)[i])
                    == parts(path);
            assert(root_paths(found)[i] == root_paths(earlier)[i]);
        }
        if active->Done_0 is Some && !lists_path(root_paths(earlier), active->Done_0->0) {
            let last = found.len() - 1;
            assert(root_paths(found)[last] == active->Done_0->0);
        }
    }
}

/// Every configuration that is active in Cargo's own directory or in an ancestor of the workspace
/// is among the roots, Cargo's own first.
pub proof fn law_every_active_config_is_a_root(
    facts: ConfigFacts,
    variables: Seq<(Seq<u8>, Seq<u8>)>,
    workspace_root: Seq<u8>,
)
    requires
        discovered_roots(facts, variables, workspace_root) is Done,
    ensures
        ({
            let found = discovered_roots(facts, variables, workspace_root)->Done_0;
            let ancestors = ancestors_of(workspace_root);
            let home = cargo_home_of(variables, workspace_root);
            &&& forall|k: int|
                #![trigger ancestors[k]]
                0 <= k < ancestors.len() ==> {
                    let active = active_config(
                        facts,
                        join_path(ancestors[k], encode_utf8(".cargo"@)),
                    );
                    active is Done && (active->Done_0 is Some ==> lists_path(
                        root_paths(found),
                        active->Done_0->0,
                    ))
                }
            &&& home is Some ==> {
                let active = active_config(facts, home->0);
                active is Done && (active->Done_0 is Some ==> found.len() > 0 && found[0] == (
                    Discovery::CargoHome,
                    active->Done_0->0,
                ))
            }
        }),
{
    let ancestors = ancestors_of(workspace_root);
    lemma_roots_found(
        facts,
        cargo_home_of(variables, workspace_root),
        ancestors,
        ancestors.len() as int,
    );
}

/// A document that sets the compiler or one of its wrappers is refused, whatever else it says.
pub proof fn law_documents_with_overrides_are_refused(
    facts: ConfigFacts,
    include_supported: bool,
    canonical: Seq<u8>,
    sha256: Seq<char>,
    document: TomlView,
)
    ensures
        ({
            let build = entry_of(document, "build"@);
            let contributed = document_edges(
                facts,
                include_supported,
                canonical,
                sha256,
                document,
            );
            &&& build is Some && (entry_of(build->0, "rustc"@) is Some || entry_of(
                build->0,
                "rustc-wrapper"@,
            ) is Some || entry_of(build->0, "rustc-workspace-wrapper"@) is Some)
                ==> contributed is Refused && contributed->Refused_0.reason
                == "unproven_compiler_override"@
            &&& contributed is Done ==> ({ let (digest, _) = contributed->Done_0; digest }) == sha256
        }),
{
}

proof fn lemma_declared_entry(entries: Seq<TomlView>, count: int, index: int)
    requires
        0 <= index < count <= entries.len(),
        declarations(entries, count) is Ok,
    ensures
        declarations(entries, count)->Ok_0.len() == count,
        entry_declaration(entries[index]) == Ok::<(Seq<char>, bool), Seq<char>>(
            declarations(entries, count)->Ok_0[index],
        ),
    decreases count,
{
    lemma_declared_count(entries, count);
    lemma_declared_count(entries, count - 1);
    if index < count - 1 {
        lemma_declared_entry(entries, count - 1, index);
    }
}

proof fn lemma_declared_count(entries: Seq<TomlView>, count: int)
    requires
        0 <= count,
        declarations(entries, count) is Ok,
    ensures
        declarations(entries, count)->Ok_0.len() == count,
    decreases count,
{
    if count > 0 {
        lemma_declared_count(entries, count - 1);
    }
}

/// The accepted inclusions of a document are those of its list, one for each entry and in order:
/// a plain path that ends in `.toml`, required unless its table says that it may be absent.
pub proof fn law_includes_are_those_of_the_list(
    document: TomlView,
    path: Seq<u8>,
    entries: Seq<TomlView>,
    index: int,
)
    requires
        entry_of(document, "include"@) == Some(TomlView::List(entries)),
        include_outcome(document, path) is Ok,
        0 <= index < entries.len(),
    ensures
        ({
            let declared = include_outcome(document, path)->Ok_0;
            let (name, optional) = declared[index];
            &&& entries.len() <= 256
            &&& declared.len() == entries.len()
            &&& entries[index] is Text ==> name == entries[index]->Text_0 && !optional
            &&& entries[index] is Table ==> entry_of(entries[index], "path"@) == Some(
                TomlView::Text(name),
            ) && (optional <==> entry_of(entries[index], "optional"@) == Some(TomlView::Flag(true)))
            &&& entries[index] is Text || entries[index] is Table
            &&& ".toml"@.is_suffix_of(name)
            &&& !name.contains('*') && !name.contains('?') && !name.contains('[')
                && !name.contains(']') && !name.contains('{') && !name.contains('}')
        }),
{
    lemma_declared_entry(entries, entries.len() as int, index);
    let declared = include_outcome(document, path)->Ok_0;
    let name = declared[index].0;
    assert(!holds_pattern(name));
    assert forall|i: int| 0 <= i < name.len() implies !is_pattern_letter(#[trigger] name[i]) by {
        if is_pattern_letter(name[i]) {
            assert(holds_pattern(name));
        }
    }
}

proof fn lemma_edge_resolved(
    facts: ConfigFacts,
    directory: Seq<u8>,
    declared: Seq<(Seq<char>, bool)>,
    count: int,
    index: int,
)
    requires
        0 <= index < count <= declared.len(),
        resolved_edges(facts, directory, declared, count) is Done,
    ensures
        ({
            let edges = resolved_edges(facts, directory, declared, count)->Done_0;
            &&& edges.len() == count
            &&& edges[index].declared == declared[index].0
            &&& edges[index].optional == declared[index].1
            &&& edges[index].resolved == join_path(directory, encode_utf8(declared[index].0))
            &&& known_regular(facts.regular@, edges[index].resolved, 0) == Some(
                edges[index].present,
            )
        }),
    decreases count,
{
    lemma_edges_counted(facts, directory, declared, count);
    lemma_edges_counted(facts, directory, declared, count - 1);
    if index < count - 1 {
        lemma_edge_resolved(facts, directory, declared, count - 1, index);
    }
}

proof fn lemma_edges_counted(
    facts: ConfigFacts,
    directory: Seq<u8>,
    declared: Seq<(Seq<char>, bool)>,
    count: int,
)
    requires
        0 <= count,
        resolved_edges(facts, directory, declared, count) is Done,
    ensures
        resolved_edges(facts, directory, declared, count)->Done_0.len() == count,
    decreases count,
{
    if count > 0 {
        lemma_edges_counted(facts, directory, declared, count - 1);
    }
}

/// Every declared inclusion becomes an edge, in order, resolved against the directory of its source
/// and present exactly where a regular file is there.
pub proof fn law_every_include_becomes_an_edge(
    facts: ConfigFacts,
    directory: Seq<u8>,
    declared: Seq<(Seq<char>, bool)>,
    index: int,
)
    requires
        0 <= index < declared.len(),
        resolved_edges(facts, directory, declared, declared.len() as int) is Done,
    ensures
        ({
            let edges = resolved_edges(facts, directory, declared, declared.len() as int)->Done_0;
            &&& edges.len() == declared.len()
            &&& edges[index].declared == declared[index].0
            &&& edges[index].optional == declared[index].1
            &&& edges[index].resolved == join_path(directory, encode_utf8(declared[index].0))
            &&& known_regular(facts.regular@, edges[index].resolved, 0) == Some(
                edges[index].present,
            )
        }),
{
    lemma_edge_resolved(facts, directory, declared, declared.len() as int, index);
}

/// A source is only taken where both reads have the same framed digest, and its text is what the
/// first one gave.
pub proof fn law_sources_are_read_twice(path: Seq<u8>, fact: SourceFact)
    requires
        source_outcome(path, fact) is Ok,
    ensures
        ({
            let (text, sha256) = source_outcome(path, fact)->Ok_0;
            let first = read_outcome(path, fact.first);
            let second = read_outcome(path, fact.second);
            &&& first is Ok && second is Ok
            &&& valid_utf8(first->Ok_0) && text == decode_utf8(first->Ok_0)
            &&& sha256 == sha256_text(big_endian(first->Ok_0.len(), 8) + first->Ok_0)
            &&& sha256 == sha256_text(big_endian(second->Ok_0.len(), 8) + second->Ok_0)
        }),
{
}

/// Whether each source holds the digest and the edges of what lies at its path.
pub open spec fn sources_are_faithful(
    facts: ConfigFacts,
    include_supported: bool,
    sources: Seq<SourceView>,
) -> bool {
    forall|i: int|
        0 <= i < sources.len() ==> source_edges(
            facts,
            include_supported,
            (#[trigger] sources[i]).path,
        ) == AttemptView::Done((sources[i].sha256, sources[i].includes))
}

proof fn lemma_loaded_is_faithful(
    facts: ConfigFacts,
    include_supported: bool,
    scanner: ScannerView,
    stack: Seq<Seq<u8>>,
    path: Seq<u8>,
    discovery: Discovery,
)
    requires
        sources_are_faithful(facts, include_supported, scanner.sources),
    ensures
        ({
            let walk = loaded(facts, include_supported, scanner, stack, path, discovery);
            walk is Done ==> sources_are_faithful(facts, include_supported, walk->Done_0.sources)
        }),
    decreases INCLUDE_DEPTH_LIMIT + 1 - stack.len(), 0int, 0int,
{
    let walk = loaded(facts, include_supported, scanner, stack, path, discovery);
    if walk is Done {
        let canonical = known_canonical(facts.canonical@, path, 0)->0->Ok_0@;
        if !lists_path(source_paths(scanner.sources), canonical) {
            let (sha256, edges) = source_edges(facts, include_supported, canonical)->Done_0;
            let entered = ScannerView {
                declares_include: scanner.declares_include || edges.len() > 0,
                sources: scanner.sources,
            };
            lemma_includes_are_faithful(
                facts,
                include_supported,
                entered,
                stack.push(canonical),
                edges,
                0,
                canonical,
            );
        }
    }
}

proof fn lemma_includes_are_faithful(
    facts: ConfigFacts,
    include_supported: bool,
    scanner: ScannerView,
    stack: Seq<Seq<u8>>,
    edges: Seq<EdgeView>,
    index: int,
    including: Seq<u8>,
)
    requires
        sources_are_faithful(facts, include_supported, scanner.sources),
    ensures
        ({
            let walk = loaded_includes(
                facts,
                include_supported,
                scanner,
                stack,
                edges,
                index,
                including,
            );
            walk is Done ==> sources_are_faithful(facts, include_supported, walk->Done_0.sources)
        }),
    decreases INCLUDE_DEPTH_LIMIT + 1 - stack.len(), 1int, edges.len() - index,
{
    if 0 <= index < edges.len() {
        if edges[index].present {
            lemma_loaded_is_faithful(
                facts,
                include_supported,
                scanner,
                stack,
                edges[index].resolved,
                Discovery::Include,
            );
            let walk = loaded(
                facts,
                include_supported,
                scanner,
                stack,
                edges[index].resolved,
                Discovery::Include,
            );
            if walk is Done {
                lemma_includes_are_faithful(
                    facts,
                    include_supported,
                    walk->Done_0,
                    stack,
                    edges,
                    index + 1,
                    including,
                );
            }
        } else if edges[index].optional {
            lemma_includes_are_faithful(
                facts,
                include_supported,
                scanner,
                stack,
                edges,
                index + 1,
                including,
            );
        }
    }
}

proof fn lemma_walk_is_faithful(
    facts: ConfigFacts,
    include_supported: bool,
    roots: Seq<(Discovery, Seq<u8>)>,
    count: int,
)
    ensures
        ({
            let walk = walked(facts, include_supported, roots, count);
            walk is Done ==> sources_are_faithful(facts, include_supported, walk->Done_0.sources)
        }),
    decreases count,
{
    if count > 0 {
        lemma_walk_is_faithful(facts, include_supported, roots, count - 1);
        let walk = walked(facts, include_supported, roots, count - 1);
        if walk is Done {
            lemma_loaded_is_faithful(
                facts,
                include_supported,
                walk->Done_0,
                Seq::empty(),
                roots[count - 1].1,
                roots[count - 1].0,
            );
        }
    }
}

/// Every source of a graph is recorded with the digest and the inclusions of what lies at its path;
/// inclusions are supported from the ninety-fourth minor release on.
pub proof fn law_graphs_record_what_was_read(
    facts: ConfigFacts,
    variables: Seq<(Seq<u8>, Seq<u8>)>,
    workspace_root: Seq<u8>,
    cargo_version: Seq<char>,
)
    requires
        scanned(facts, variables, workspace_root, cargo_version) is Done,
    ensures
        ({
            let graph = scanned(facts, variables, workspace_root, cargo_version)->Done_0;
            &&& minor_of(cargo_version) == Some(graph.cargo_minor)
            &&& graph.include_supported <==> graph.cargo_minor >= 94
            &&& sources_are_faithful(facts, graph.include_supported, graph.sources)
            &&& graph.environment_inputs == recorded_environment(variables)
        }),
{
    let minor = minor_of(cargo_version)->0;
    let roots = discovered_roots(facts, variables, workspace_root)->Done_0;
    lemma_walk_is_faithful(facts, minor >= INCLUDE_STABLE_MINOR, roots, roots.len() as int);
}

/// The environment is recorded variable by variable: that it is absent, that it is empty, or the
/// framed digest of its value.
pub proof fn law_environments_are_recorded_by_digest(
    variables: Seq<(Seq<u8>, Seq<u8>)>,
    index: int,
)
    requires
        0 <= index < 12,
    ensures
        ({
            let found = recorded_environment(variables);
            let names = seq![
                "CARGO_ENCODED_RUSTFLAGS"@,
                "RUSTFLAGS"@,
                "CARGO_BUILD_RUSTFLAGS"@,
                "CARGO_TARGET_X86_64_UNKNOWN_LINUX_GNU_RUSTFLAGS"@,
                "RUSTC"@,
                "RUSTC_WRAPPER"@,
                "RUSTC_WORKSPACE_WRAPPER"@,
                "CARGO_BUILD_RUSTC"@,
                "CARGO_BUILD_RUSTC_WRAPPER"@,
                "CARGO_BUILD_RUSTC_WORKSPACE_WRAPPER"@,
                "CARGO_BUILD_TARGET"@,
                "CARGO_HOME"@,
            ];
            let value = value_of(variables, names[index]);
            &&& found.len() == 12
            &&& found[index].name == names[index]
            &&& value is None ==> found[index].presence == Presence::Absent && found[index].sha256
                is None
            &&& value is Some && value->0.len() == 0 ==> found[index].presence == Presence::Empty
                && found[index].sha256 is None
            &&& value is Some && value->0.len() > 0 ==> found[index].presence == Presence::Given
                && found[index].sha256 == Some(
                sha256_text(big_endian(value->0.len(), 8) + value->0),
            )
        }),
{
}

} // verus!
