//! Checks of the toolchain, the host and the source, before anything is built.

use vstd::prelude::*;
use vstd::string::*;
use vstd::utf8::*;

use crate::config_graph::{ancestors_of, list_ancestors};
use crate::error::TemperError;
use crate::interposition::SUPPORTED_HOST;
use crate::paths::{join, join_path, parent, parent_path, path_below, strip_prefix};
use crate::prerequisites::{ToolProbe, TOOL_OUTPUT_LIMIT};
use crate::text::{
    byte_strings, characters, find_letter, letter_place, lines, lines_of, lossy, lossy_text,
    optional_bytes, optional_text, same_text, strip_text, text2, text3, text4, text5, text_after,
    text_between, texts, trim, trimmed, utf8_text,
};

verus! {

/// Whether the source is exactly what is committed.
#[derive(Clone, Copy, Debug, PartialEq, Eq, Structural)]
pub enum SourceReproducibility {
    Clean,
    Dirty,
}

/// What is persisted of the preflight.
#[derive(Debug)]
pub struct PreflightRecord {
    pub host_triple: String,
    pub kernel: String,
    pub cpu_model: String,
    pub logical_core_count: usize,
    pub cargo_version: String,
    pub rustc_version: String,
    pub manifest_path: Vec<u8>,
    pub lockfile_path: Vec<u8>,
    pub lockfile_sha256: String,
}

/// A passed preflight.
#[derive(Debug)]
pub struct Preflight {
    pub record: PreflightRecord,
    pub source_reproducibility: SourceReproducibility,
}

/// The version that a tool printed, or why it is refused.
pub open spec fn printed_version(probe: ToolProbe, name: Seq<char>) -> Result<
    Seq<char>,
    Seq<char>,
> {
    match probe {
        ToolProbe::NotStarted => Err(
            name
                + " executable is unavailable; install the Rust toolchain and ensure it can be executed."@,
        ),
        ToolProbe::Failed => Err(
            name
                + " version probe failed; repair the active Rust toolchain before running Temper."@,
        ),
        ToolProbe::Printed(output) => if output@.len() > TOOL_OUTPUT_LIMIT {
            Err(name + " version output exceeded the 64 KiB diagnostic limit."@)
        } else if !valid_utf8(output@) {
            Err(name + " version output was not valid UTF-8."@)
        } else {
            Ok(trimmed(decode_utf8(output@)))
        },
    }
}

/// Reads the version that a tool printed.
pub fn version_output(probe: &ToolProbe, name: &str) -> (version: Result<String, TemperError>)
    ensures
        match version {
            Ok(text) => printed_version(*probe, name@) == Ok::<Seq<char>, Seq<char>>(text@),
            Err(error) => printed_version(*probe, name@) == Err::<Seq<char>, Seq<char>>(error@),
        },
{
    match probe {
        ToolProbe::NotStarted => Err(
            TemperError::new(
                text2(
                    name,
                    " executable is unavailable; install the Rust toolchain and ensure it can be executed.",
                ),
            ),
        ),
        ToolProbe::Failed => Err(
            TemperError::new(
                text2(
                    name,
                    " version probe failed; repair the active Rust toolchain before running Temper.",
                ),
            ),
        ),
        ToolProbe::Printed(output) => {
            if output.len() > TOOL_OUTPUT_LIMIT {
                return Err(
                    TemperError::new(
                        text2(name, " version output exceeded the 64 KiB diagnostic limit."),
                    ),
                );
            }
            match utf8_text(output.as_slice()) {
                Some(text) => Ok(trim(text)),
                None => Err(
                    TemperError::new(text2(name, " version output was not valid UTF-8.")),
                ),
            }
        },
    }
}

/// The host that the first line to name one names, at or after `from`.
pub open spec fn host_among(found: Seq<Seq<char>>, from: int) -> Option<Seq<char>>
    decreases found.len() - from,
{
    if from < 0 || from >= found.len() {
        None
    } else {
        match text_after(found[from], "host: "@) {
            Some(host) => Some(host),
            None => host_among(found, from + 1),
        }
    }
}

/// The host that rustc reported, or that it reported none.
pub open spec fn reported_host(rustc_version: Seq<char>) -> Result<Seq<char>, Seq<char>> {
    match host_among(lines_of(rustc_version), 0) {
        Some(host) => Ok(host),
        None => Err("rustc -Vv did not report a host triple."@),
    }
}

/// Reads the host that rustc reported.
pub fn parse_host_triple(rustc_version: &str) -> (host: Result<String, TemperError>)
    ensures
        match host {
            Ok(text) => reported_host(rustc_version@) == Ok::<Seq<char>, Seq<char>>(text@),
            Err(error) => reported_host(rustc_version@) == Err::<Seq<char>, Seq<char>>(error@),
        },
{
    let found = lines(rustc_version);
    let ghost views = lines_of(rustc_version@);
    let mut index: usize = 0;
    while index < found.len()
        invariant
            index <= found@.len(),
            texts(found@) == views,
            views == lines_of(rustc_version@),
            host_among(views, 0) == host_among(views, index as int),
        decreases found@.len() - index,
    {
        assert(texts(found@)[index as int] == found@[index as int]@);
        if let Some(host) = strip_text(found[index].as_str(), "host: ") {
            return Ok(host);
        }
        index = index + 1;
    }
    Err(TemperError::new("rustc -Vv did not report a host triple.".to_owned()))
}

/// Why a host is refused.
pub open spec fn host_refusal(operating_system: Seq<char>, host_triple: Seq<char>) -> Option<
    Seq<char>,
> {
    if operating_system == "linux"@ && host_triple == SUPPORTED_HOST@ {
        None
    } else {
        Some(
            "Unsupported host triple "@ + host_triple + "; Temper v0.0.1 supports only "@
                + SUPPORTED_HOST@ + "."@,
        )
    }
}

/// Checks that the host is the one that is supported.
pub fn validate_supported_host(operating_system: &str, host_triple: &str) -> (valid: Result<
    (),
    TemperError,
>)
    ensures
        match valid {
            Ok(_) => host_refusal(operating_system@, host_triple@) is None,
            Err(error) => host_refusal(operating_system@, host_triple@) == Some(error@),
        },
{
    if same_text(operating_system, "linux") && same_text(host_triple, SUPPORTED_HOST) {
        Ok(())
    } else {
        Err(
            TemperError::new(
                text5(
                    "Unsupported host triple ",
                    host_triple,
                    "; Temper v0.0.1 supports only ",
                    SUPPORTED_HOST,
                    ".",
                ),
            ),
        )
    }
}

/// Why a requested target is refused.
pub open spec fn target_refusal(requested: Option<&str>) -> Option<Seq<char>> {
    match requested {
        Some(target) => if target@ != SUPPORTED_HOST@ {
            Some(
                "Cross-target selection "@ + target@
                    + " is unsupported; Temper v0.0.1 supports only "@ + SUPPORTED_HOST@
                    + " host binaries."@,
            )
        } else {
            None
        },
        None => None,
    }
}

/// Checks that no other target than the host was requested.
pub fn validate_requested_target(requested_target: Option<&str>) -> (valid: Result<
    (),
    TemperError,
>)
    ensures
        match valid {
            Ok(_) => target_refusal(requested_target) is None,
            Err(error) => target_refusal(requested_target) == Some(error@),
        },
{
    match requested_target {
        Some(target) => if !same_text(target, SUPPORTED_HOST) {
            Err(
                TemperError::new(
                    text5(
                        "Cross-target selection ",
                        target,
                        " is unsupported; Temper v0.0.1 supports only ",
                        SUPPORTED_HOST,
                        " host binaries.",
                    ),
                ),
            )
        } else {
            Ok(())
        },
        None => Ok(()),
    }
}

/// Where a lockfile is looked for: beside the manifest, and then in the directories above.
pub open spec fn lockfile_places(manifest_path: Seq<u8>) -> Seq<Seq<u8>> {
    match parent_path(manifest_path) {
        None => Seq::empty(),
        Some(directory) => ancestors_of(directory).map_values(
            |ancestor: Seq<u8>| join_path(ancestor, encode_utf8("Cargo.lock"@)),
        ),
    }
}

/// Where a lockfile is looked for.
pub fn lockfile_candidates(manifest_path: &[u8]) -> (places: Vec<Vec<u8>>)
    ensures
        byte_strings(places@) == lockfile_places(manifest_path@),
{
    let mut places: Vec<Vec<u8>> = Vec::new();
    let directory = match parent(manifest_path) {
        Some(directory) => directory,
        None => {
            assert(byte_strings(places@) =~= lockfile_places(manifest_path@));
            return places;
        },
    };
    let ancestors = list_ancestors(directory.as_slice());
    let ghost above = byte_strings(ancestors@);
    let mut index: usize = 0;
    while index < ancestors.len()
        invariant
            index <= ancestors@.len(),
            above == byte_strings(ancestors@),
            places@.len() == index,
            forall|i: int|
                0 <= i < index ==> (#[trigger] places@[i])@ == join_path(
                    above[i],
                    encode_utf8("Cargo.lock"@),
                ),
        decreases ancestors@.len() - index,
    {
        assert(above[index as int] == ancestors@[index as int]@);
        places.push(join(ancestors[index].as_slice(), "Cargo.lock".as_bytes()));
        index = index + 1;
    }
    assert(byte_strings(places@) =~= lockfile_places(manifest_path@));
    places
}

/// What the file system says of one place of a lockfile.
#[derive(Debug)]
pub struct LockfileProbe {
    pub regular: bool,
    pub canonical: Option<Vec<u8>>,
}

/// The canonical path of the first lockfile, at or after `from`.
pub open spec fn first_lockfile(probes: Seq<LockfileProbe>, from: int) -> Option<Seq<u8>>
    decreases probes.len() - from,
{
    if from < 0 || from >= probes.len() {
        None
    } else if probes[from].regular {
        optional_bytes(probes[from].canonical)
    } else {
        first_lockfile(probes, from + 1)
    }
}

/// Finds the nearest lockfile.
pub fn find_lockfile(probes: &Vec<LockfileProbe>) -> (path: Option<Vec<u8>>)
    ensures
        optional_bytes(path) == first_lockfile(probes@, 0),
{
    let mut index: usize = 0;
    while index < probes.len()
        invariant
            index <= probes@.len(),
            first_lockfile(probes@, 0) == first_lockfile(probes@, index as int),
        decreases probes@.len() - index,
    {
        if probes[index].regular {
            return match &probes[index].canonical {
                Some(path) => Some(path.clone()),
                None => None,
            };
        }
        index = index + 1;
    }
    None
}

/// The worktree that Git reported, or why there is none.
pub open spec fn worktree_outcome(manifest_path: Seq<u8>, probe: ToolProbe) -> Result<
    Seq<char>,
    Seq<char>,
> {
    if parent_path(manifest_path) is None {
        Err("Cargo manifest has no parent directory."@)
    } else {
        match probe {
            ToolProbe::NotStarted => Err(
                "Git is unavailable; Temper cannot prove source reproducibility before building."@,
            ),
            ToolProbe::Failed => Err(
                "The Cargo project is not in a Git worktree; Temper cannot prove source reproducibility."@,
            ),
            ToolProbe::Printed(output) => if valid_utf8(output@) {
                Ok(trimmed(decode_utf8(output@)))
            } else {
                Err("Git worktree path was not valid UTF-8."@)
            },
        }
    }
}

/// Reads the worktree that Git reported.
pub fn git_worktree(manifest_path: &[u8], probe: &ToolProbe) -> (root: Result<String, TemperError>)
    ensures
        match root {
            Ok(text) => worktree_outcome(manifest_path@, *probe) == Ok::<Seq<char>, Seq<char>>(
                text@,
            ),
            Err(error) => worktree_outcome(manifest_path@, *probe) == Err::<Seq<char>, Seq<char>>(
                error@,
            ),
        },
{
    if parent(manifest_path).is_none() {
        return Err(TemperError::new("Cargo manifest has no parent directory.".to_owned()));
    }
    match probe {
        ToolProbe::NotStarted => Err(
            TemperError::new(
                "Git is unavailable; Temper cannot prove source reproducibility before building.".to_owned(),
            ),
        ),
        ToolProbe::Failed => Err(
            TemperError::new(
                "The Cargo project is not in a Git worktree; Temper cannot prove source reproducibility.".to_owned(),
            ),
        ),
        ToolProbe::Printed(output) => match utf8_text(output.as_slice()) {
            Some(text) => Ok(trim(text)),
            None => Err(TemperError::new("Git worktree path was not valid UTF-8.".to_owned())),
        },
    }
}

/// The pathspec that leaves the run directory out of Git's status, or why there is none.
pub open spec fn exclusion_outcome(git_root: Seq<u8>, lockfile_path: Seq<u8>) -> Result<
    Seq<char>,
    Seq<char>,
> {
    match parent_path(lockfile_path) {
        None => Err("Cargo.lock has no parent directory."@),
        Some(workspace_root) => match path_below(
            join_path(workspace_root, encode_utf8(".temper"@)),
            git_root,
        ) {
            None => Err(
                "Cargo workspace root is outside its Git worktree; source state is ambiguous."@,
            ),
            Some(relative) => Ok(":(exclude,literal)"@ + lossy_text(relative)),
        },
    }
}

/// The pathspec that leaves exactly the run directory out of Git's status.
pub fn temper_exclusion(git_root: &[u8], lockfile_path: &[u8]) -> (exclusion: Result<
    String,
    TemperError,
>)
    ensures
        match exclusion {
            Ok(text) => exclusion_outcome(git_root@, lockfile_path@) == Ok::<
                Seq<char>,
                Seq<char>,
            >(text@),
            Err(error) => exclusion_outcome(git_root@, lockfile_path@) == Err::<
                Seq<char>,
                Seq<char>,
            >(error@),
        },
{
    let workspace_root = match parent(lockfile_path) {
        Some(directory) => directory,
        None => return Err(TemperError::new("Cargo.lock has no parent directory.".to_owned())),
    };
    let temper = join(workspace_root.as_slice(), ".temper".as_bytes());
    match strip_prefix(temper.as_slice(), git_root) {
        Some(relative) => Ok(text2(":(exclude,literal)", lossy(relative.as_slice()).as_str())),
        None => Err(
            TemperError::new(
                "Cargo workspace root is outside its Git worktree; source state is ambiguous.".to_owned(),
            ),
        ),
    }
}

/// The state of the source that Git's status shows, or why it is refused.
pub open spec fn status_outcome(probe: ToolProbe, allow_dirty: bool) -> Result<
    SourceReproducibility,
    Seq<char>,
> {
    match probe {
        ToolProbe::NotStarted => Err("Git status could not be executed."@),
        ToolProbe::Failed => Err(
            "Git status failed; Temper cannot prove source reproducibility."@,
        ),
        ToolProbe::Printed(output) => if output@.len() == 0 {
            Ok(SourceReproducibility::Clean)
        } else if allow_dirty {
            Ok(SourceReproducibility::Dirty)
        } else {
            Err(
                "Git worktree is dirty. Commit or stash changes, or pass --allow-dirty."@,
            )
        },
    }
}

/// The state of the source, or why it is refused.
pub open spec fn source_outcome(
    manifest_path: Seq<u8>,
    lockfile_path: Seq<u8>,
    allow_dirty: bool,
    root: ToolProbe,
    status: ToolProbe,
) -> Result<SourceReproducibility, Seq<char>> {
    match worktree_outcome(manifest_path, root) {
        Err(message) => Err(message),
        Ok(git_root) => match exclusion_outcome(encode_utf8(git_root), lockfile_path) {
            Err(message) => Err(message),
            Ok(_) => status_outcome(status, allow_dirty),
        },
    }
}

/// Decides the state of the source from what Git reported of its worktree and its status.
pub fn inspect_source(
    manifest_path: &[u8],
    lockfile_path: &[u8],
    allow_dirty: bool,
    root: &ToolProbe,
    status: &ToolProbe,
) -> (state: Result<SourceReproducibility, TemperError>)
    ensures
        match state {
            Ok(found) => source_outcome(
                manifest_path@,
                lockfile_path@,
                allow_dirty,
                *root,
                *status,
            ) == Ok::<SourceReproducibility, Seq<char>>(found),
            Err(error) => source_outcome(
                manifest_path@,
                lockfile_path@,
                allow_dirty,
                *root,
                *status,
            ) == Err::<SourceReproducibility, Seq<char>>(error@),
        },
{
    let git_root = match git_worktree(manifest_path, root) {
        Ok(root) => root,
        Err(error) => return Err(error),
    };
    if let Err(error) = temper_exclusion(git_root.as_str().as_bytes(), lockfile_path) {
        return Err(error);
    }
    match status {
        ToolProbe::NotStarted => Err(
            TemperError::new("Git status could not be executed.".to_owned()),
        ),
        ToolProbe::Failed => Err(
            TemperError::new(
                "Git status failed; Temper cannot prove source reproducibility.".to_owned(),
            ),
        ),
        ToolProbe::Printed(output) => if output.len() == 0 {
            Ok(SourceReproducibility::Clean)
        } else if allow_dirty {
            Ok(SourceReproducibility::Dirty)
        } else {
            Err(
                TemperError::new(
                    "Git worktree is dirty. Commit or stash changes, or pass --allow-dirty.".to_owned(),
                ),
            )
        },
    }
}

/// The kernel, or why it is not known.
pub open spec fn kernel_outcome(
    name: Result<String, String>,
    release: Result<String, String>,
) -> Result<Seq<char>, Seq<char>> {
    match name {
        Err(error) => Err("Could not read kernel name: "@ + error@),
        Ok(kernel) => match release {
            Err(error) => Err("Could not read kernel release: "@ + error@),
            Ok(number) => Ok(trimmed(kernel@) + " "@ + trimmed(number@)),
        },
    }
}

/// Names the kernel.
pub fn kernel_version(name: &Result<String, String>, release: &Result<String, String>) -> (kernel:
    Result<String, TemperError>)
    ensures
        match kernel {
            Ok(text) => kernel_outcome(*name, *release) == Ok::<Seq<char>, Seq<char>>(text@),
            Err(error) => kernel_outcome(*name, *release) == Err::<Seq<char>, Seq<char>>(error@),
        },
{
    let kernel = match name {
        Ok(text) => text,
        Err(error) => return Err(
            TemperError::new(text2("Could not read kernel name: ", error.as_str())),
        ),
    };
    let number = match release {
        Ok(text) => text,
        Err(error) => return Err(
            TemperError::new(text2("Could not read kernel release: ", error.as_str())),
        ),
    };
    Ok(text3(trim(kernel.as_str()).as_str(), " ", trim(number.as_str()).as_str()))
}

/// The value of a line whose trimmed key is `key`.
pub open spec fn keyed_value(line: Seq<char>, key: Seq<char>) -> Option<Seq<char>> {
    match letter_place(line, ':', 0) {
        Some(place) => if trimmed(line.subrange(0, place)) == key {
            Some(trimmed(line.subrange(place + 1, line.len() as int)))
        } else {
            None
        },
        None => None,
    }
}

fn value_of_line(line: &str, key: &str) -> (value: Option<String>)
    ensures
        optional_text(value) == keyed_value(line@, key@),
{
    let letters = characters(line);
    let total: usize = letters.len();
    let place: usize = match find_letter(letters.as_slice(), ':', 0) {
        Some(place) => place,
        None => return None,
    };
    let found = text_between(letters.as_slice(), 0, place);
    if !same_text(trim(found.as_str()).as_str(), key) {
        return None;
    }
    let rest = text_between(letters.as_slice(), place + 1, total);
    Some(trim(rest.as_str()))
}

/// The value of the first line with this key, at or after `from`.
pub open spec fn first_keyed(found: Seq<Seq<char>>, key: Seq<char>, from: int) -> Option<Seq<char>>
    decreases found.len() - from,
{
    if from < 0 || from >= found.len() {
        None
    } else {
        match keyed_value(found[from], key) {
            Some(value) => Some(value),
            None => first_keyed(found, key, from + 1),
        }
    }
}

/// The processor, or why it is not known.
pub open spec fn processor_outcome(cpu_info: Result<String, String>) -> Result<
    Seq<char>,
    Seq<char>,
> {
    match cpu_info {
        Err(error) => Err("Could not read CPU model: "@ + error@),
        Ok(text) => match first_keyed(lines_of(text@), "model name"@, 0) {
            Some(model) => if model.len() == 0 {
                Err("Linux did not report a CPU model."@)
            } else {
                Ok(model)
            },
            None => Err("Linux did not report a CPU model."@),
        },
    }
}

/// Names the processor.
pub fn cpu_model(cpu_info: &Result<String, String>) -> (model: Result<String, TemperError>)
    ensures
        match model {
            Ok(text) => processor_outcome(*cpu_info) == Ok::<Seq<char>, Seq<char>>(text@),
            Err(error) => processor_outcome(*cpu_info) == Err::<Seq<char>, Seq<char>>(error@),
        },
{
    let text = match cpu_info {
        Ok(text) => text,
        Err(error) => return Err(
            TemperError::new(text2("Could not read CPU model: ", error.as_str())),
        ),
    };
    let found = lines(text.as_str());
    let ghost views = lines_of(text@);
    let mut index: usize = 0;
    while index < found.len()
        invariant
            index <= found@.len(),
            texts(found@) == views,
            views == lines_of(text@),
            *cpu_info == Ok::<String, String>(*text),
            first_keyed(views, "model name"@, 0) == first_keyed(
                views,
                "model name"@,
                index as int,
            ),
        decreases found@.len() - index,
    {
        assert(texts(found@)[index as int] == found@[index as int]@);
        if let Some(model) = value_of_line(found[index].as_str(), "model name") {
            let letters = characters(model.as_str());
            if letters.len() == 0 {
                return Err(TemperError::new("Linux did not report a CPU model.".to_owned()));
            }
            return Ok(model);
        }
        index = index + 1;
    }
    Err(TemperError::new("Linux did not report a CPU model.".to_owned()))
}

/// Everything that the preflight rests on.
#[derive(Debug)]
pub struct PreflightFacts {
    pub operating_system: String,
    pub cargo_version: ToolProbe,
    pub rustc_version: ToolProbe,
    /// The canonical path of the manifest.
    pub manifest: Result<Vec<u8>, String>,
    /// Whether that path is a file.
    pub manifest_is_file: bool,
    /// What lies at the places of a lockfile, the nearest first.
    pub lockfiles: Vec<LockfileProbe>,
    /// The digest of the lockfile, or why there is none.
    pub lockfile_sha256: Result<String, String>,
    pub git_root: ToolProbe,
    pub git_status: ToolProbe,
    pub kernel_name: Result<String, String>,
    pub kernel_release: Result<String, String>,
    pub cpu_info: Result<String, String>,
    pub logical_cores: Result<usize, String>,
}

/// What a passed preflight says, as sequences.
pub struct PreflightView {
    pub host_triple: Seq<char>,
    pub kernel: Seq<char>,
    pub cpu_model: Seq<char>,
    pub logical_core_count: usize,
    pub cargo_version: Seq<char>,
    pub rustc_version: Seq<char>,
    pub manifest_path: Seq<u8>,
    pub lockfile_path: Seq<u8>,
    pub lockfile_sha256: Seq<char>,
    pub source_reproducibility: SourceReproducibility,
}

impl View for Preflight {
    type V = PreflightView;

    open spec fn view(&self) -> PreflightView {
        PreflightView {
            host_triple: self.record.host_triple@,
            kernel: self.record.kernel@,
            cpu_model: self.record.cpu_model@,
            logical_core_count: self.record.logical_core_count,
            cargo_version: self.record.cargo_version@,
            rustc_version: self.record.rustc_version@,
            manifest_path: self.record.manifest_path@,
            lockfile_path: self.record.lockfile_path@,
            lockfile_sha256: self.record.lockfile_sha256@,
            source_reproducibility: self.source_reproducibility,
        }
    }
}

/// What is known of the toolchain: the two versions and the host, or why it is refused.
pub open spec fn toolchain_outcome(requested: Option<&str>, facts: PreflightFacts) -> Result<
    (Seq<char>, Seq<char>, Seq<char>),
    Seq<char>,
> {
    match target_refusal(requested) {
        Some(message) => Err(message),
        None => match printed_version(facts.cargo_version, "Cargo"@) {
            Err(message) => Err(message),
            Ok(cargo_version) => match printed_version(facts.rustc_version, "rustc"@) {
                Err(message) => Err(message),
                Ok(rustc_version) => match reported_host(rustc_version) {
                    Err(message) => Err(message),
                    Ok(host) => match host_refusal(facts.operating_system@, host) {
                        Some(message) => Err(message),
                        None => Ok((cargo_version, rustc_version, host)),
                    },
                },
            },
        },
    }
}

/// What is known of the machine: the kernel, the processor and its cores.
pub open spec fn machine_outcome(facts: PreflightFacts) -> Result<
    (Seq<char>, Seq<char>, usize),
    Seq<char>,
> {
    match kernel_outcome(facts.kernel_name, facts.kernel_release) {
        Err(message) => Err(message),
        Ok(kernel) => match processor_outcome(facts.cpu_info) {
            Err(message) => Err(message),
            Ok(model) => match facts.logical_cores {
                Err(error) => Err("Could not determine logical core count: "@ + error@),
                Ok(cores) => Ok((kernel, model, cores)),
            },
        },
    }
}

/// The preflight of a manifest, or why it is refused.
pub open spec fn preflight_outcome(
    manifest_path: Seq<u8>,
    allow_dirty: bool,
    requested: Option<&str>,
    facts: PreflightFacts,
) -> Result<PreflightView, Seq<char>> {
    match toolchain_outcome(requested, facts) {
        Err(message) => Err(message),
        Ok(toolchain) => match facts.manifest {
            Err(error) => Err(
                "Cargo manifest "@ + lossy_text(manifest_path) + " is unavailable: "@ + error@,
            ),
            Ok(manifest) => if !facts.manifest_is_file {
                Err("Cargo manifest "@ + lossy_text(manifest@) + " is not a file."@)
            } else {
                match first_lockfile(facts.lockfiles@, 0) {
                    None => Err("Temper v0.0.1 requires an existing Cargo.lock."@),
                    Some(lockfile_path) => match facts.lockfile_sha256 {
                        Err(error) => Err(error@),
                        Ok(digest) => match source_outcome(
                            manifest@,
                            lockfile_path,
                            allow_dirty,
                            facts.git_root,
                            facts.git_status,
                        ) {
                            Err(message) => Err(message),
                            Ok(state) => match machine_outcome(facts) {
                                Err(message) => Err(message),
                                Ok(machine) => Ok(
                                    PreflightView {
                                        host_triple: toolchain.2,
                                        kernel: machine.0,
                                        cpu_model: machine.1,
                                        logical_core_count: machine.2,
                                        cargo_version: toolchain.0,
                                        rustc_version: toolchain.1,
                                        manifest_path: manifest@,
                                        lockfile_path,
                                        lockfile_sha256: digest@,
                                        source_reproducibility: state,
                                    },
                                ),
                            },
                        },
                    },
                }
            },
        },
    }
}

/// Decides the preflight of a manifest.
pub fn run(
    manifest_path: &[u8],
    allow_dirty: bool,
    requested_target: Option<&str>,
    facts: PreflightFacts,
) -> (preflight: Result<Preflight, TemperError>)
    ensures
        match preflight {
            Ok(found) => preflight_outcome(
                manifest_path@,
                allow_dirty,
                requested_target,
                facts,
            ) == Ok::<PreflightView, Seq<char>>(found@),
            Err(error) => preflight_outcome(
                manifest_path@,
                allow_dirty,
                requested_target,
                facts,
            ) == Err::<PreflightView, Seq<char>>(error@),
        },
{
    if let Err(error) = validate_requested_target(requested_target) {
        return Err(error);
    }
    let cargo_version = match version_output(&facts.cargo_version, "Cargo") {
        Ok(version) => version,
        Err(error) => return Err(error),
    };
    let rustc_version = match version_output(&facts.rustc_version, "rustc") {
        Ok(version) => version,
        Err(error) => return Err(error),
    };
    let host_triple = match parse_host_triple(rustc_version.as_str()) {
        Ok(host) => host,
        Err(error) => return Err(error),
    };
    if let Err(error) = validate_supported_host(
        facts.operating_system.as_str(),
        host_triple.as_str(),
    ) {
        return Err(error);
    }
    let manifest = match &facts.manifest {
        Ok(path) => path.clone(),
        Err(error) => return Err(
            TemperError::new(
                text4(
                    "Cargo manifest ",
                    lossy(manifest_path).as_str(),
                    " is unavailable: ",
                    error.as_str(),
                ),
            ),
        ),
    };
    if !facts.manifest_is_file {
        return Err(
            TemperError::new(
                text3("Cargo manifest ", lossy(manifest.as_slice()).as_str(), " is not a file."),
            ),
        );
    }
    let lockfile_path = match find_lockfile(&facts.lockfiles) {
        Some(path) => path,
        None => return Err(
            TemperError::new("Temper v0.0.1 requires an existing Cargo.lock.".to_owned()),
        ),
    };
    let lockfile_sha256 = match &facts.lockfile_sha256 {
        Ok(digest) => digest.clone(),
        Err(error) => return Err(TemperError::new(error.clone())),
    };
    let source_reproducibility: SourceReproducibility = match inspect_source(
        manifest.as_slice(),
        lockfile_path.as_slice(),
        allow_dirty,
        &facts.git_root,
        &facts.git_status,
    ) {
        Ok(state) => state,
        Err(error) => return Err(error),
    };
    let kernel = match kernel_version(&facts.kernel_name, &facts.kernel_release) {
        Ok(kernel) => kernel,
        Err(error) => return Err(error),
    };
    let model = match cpu_model(&facts.cpu_info) {
        Ok(model) => model,
        Err(error) => return Err(error),
    };
    let logical_core_count: usize = match &facts.logical_cores {
        Ok(cores) => *cores,
        Err(error) => return Err(
            TemperError::new(text2("Could not determine logical core count: ", error.as_str())),
        ),
    };
    Ok(
        Preflight {
            record: PreflightRecord {
                host_triple,
                kernel,
                cpu_model: model,
                logical_core_count,
                cargo_version,
                rustc_version,
                manifest_path: manifest,
                lockfile_path,
                lockfile_sha256,
            },
            source_reproducibility,
        },
    )
}

/// A dirty source never passes unless it was allowed, and a passed preflight is always of the
/// supported host.
pub proof fn law_passed_preflights_are_reproducible(
    manifest_path: Seq<u8>,
    allow_dirty: bool,
    requested: Option<&str>,
    facts: PreflightFacts,
)
    requires
        preflight_outcome(manifest_path, allow_dirty, requested, facts) is Ok,
    ensures
        ({
            let found = preflight_outcome(manifest_path, allow_dirty, requested, facts)->Ok_0;
            &&& found.host_triple == SUPPORTED_HOST@
            &&& found.source_reproducibility == SourceReproducibility::Dirty ==> allow_dirty
            &&& facts.git_status matches ToolProbe::Printed(output)
            &&& found.source_reproducibility == SourceReproducibility::Clean <==> output@.len()
                == 0
        }),
{
}

proof fn lemma_first_host(found: Seq<Seq<char>>, from: int)
    requires
        0 <= from <= found.len(),
        host_among(found, from) is Some,
    ensures
        exists|i: int|
            from <= i < found.len() && #[trigger] found[i] == "host: "@ + host_among(found, from)->0
                && forall|j: int|
                from <= j < i ==> !"host: "@.is_prefix_of(#[trigger] found[j]),
    decreases found.len() - from,
{
    if from < found.len() {
        if "host: "@.is_prefix_of(found[from]) {
            assert(found[from] =~= "host: "@ + found[from].skip("host: "@.len() as int));
        } else {
            lemma_first_host(found, from + 1);
            let i = choose|i: int|
                from + 1 <= i < found.len() && #[trigger] found[i] == "host: "@ + host_among(
                    found,
                    from + 1,
                )->0 && forall|j: int|
                    from + 1 <= j < i ==> !"host: "@.is_prefix_of(#[trigger] found[j]);
            assert(found[i] == "host: "@ + host_among(found, from)->0);
        }
    }
}

/// The reported host is what stands behind the first line that names one.
pub proof fn law_hosts_are_read_from_their_line(rustc_version: Seq<char>)
    ensures
        reported_host(rustc_version) is Ok ==> exists|i: int|
            0 <= i < lines_of(rustc_version).len() && #[trigger] lines_of(rustc_version)[i]
                == "host: "@ + reported_host(rustc_version)->Ok_0 && forall|j: int|
                0 <= j < i ==> !"host: "@.is_prefix_of(#[trigger] lines_of(rustc_version)[j]),
{
    if reported_host(rustc_version) is Ok {
        lemma_first_host(lines_of(rustc_version), 0);
    }
}

/// Whether this is the nearest lockfile that is there.
pub open spec fn is_nearest(probes: Seq<LockfileProbe>, index: int) -> bool {
    &&& 0 <= index < probes.len()
    &&& probes[index].regular
    &&& forall|nearer: int| 0 <= nearer < index ==> !(#[trigger] probes[nearer]).regular
}

proof fn lemma_nearest(probes: Seq<LockfileProbe>, from: int, index: int)
    requires
        0 <= from <= index,
        is_nearest(probes, index),
    ensures
        first_lockfile(probes, from) == optional_bytes(probes[index].canonical),
    decreases index - from,
{
    if from < index {
        assert(!probes[from].regular);
        lemma_nearest(probes, from + 1, index);
    }
}

/// The nearest lockfile that is there is the one that counts, and without one there is none.
pub proof fn law_the_nearest_lockfile_counts(probes: Seq<LockfileProbe>, index: int)
    ensures
        is_nearest(probes, index) ==> first_lockfile(probes, 0) == optional_bytes(
            probes[index].canonical,
        ),
        (forall|i: int| 0 <= i < probes.len() ==> !(#[trigger] probes[i]).regular)
            ==> first_lockfile(probes, 0) is None,
{
    if is_nearest(probes, index) {
        lemma_nearest(probes, 0, index);
    }
    if forall|i: int| 0 <= i < probes.len() ==> !(#[trigger] probes[i]).regular {
        lemma_no_lockfile(probes, 0);
    }
}

proof fn lemma_no_lockfile(probes: Seq<LockfileProbe>, from: int)
    requires
        0 <= from,
        forall|i: int| 0 <= i < probes.len() ==> !(#[trigger] probes[i]).regular,
    ensures
        first_lockfile(probes, from) is None,
    decreases probes.len() - from,
{
    if from < probes.len() {
        assert(!probes[from].regular);
        lemma_no_lockfile(probes, from + 1);
    }
}

/// A source passes exactly where Git knows its worktree, the workspace lies in it, and its status
/// is empty or a dirty one was allowed; it is clean exactly where the status is empty.
pub proof fn law_sources_pass_clean_or_allowed(
    manifest_path: Seq<u8>,
    lockfile_path: Seq<u8>,
    allow_dirty: bool,
    root: ToolProbe,
    status: ToolProbe,
)
    ensures
        ({
            let outcome = source_outcome(manifest_path, lockfile_path, allow_dirty, root, status);
            &&& outcome is Ok <==> {
                &&& parent_path(manifest_path) is Some
                &&& root is Printed && valid_utf8(root->Printed_0@)
                &&& parent_path(lockfile_path) is Some
                &&& path_below(
                    join_path(parent_path(lockfile_path)->0, encode_utf8(".temper"@)),
                    encode_utf8(trimmed(decode_utf8(root->Printed_0@))),
                ) is Some
                &&& status is Printed
                &&& status->Printed_0@.len() == 0 || allow_dirty
            }
            &&& outcome is Ok ==> outcome->Ok_0 == if status->Printed_0@.len() == 0 {
                SourceReproducibility::Clean
            } else {
                SourceReproducibility::Dirty
            }
        }),
{
}

/// A preflight passes exactly where no other target is asked for, both tools print their versions
/// on the supported host, the manifest and its lockfile are there, the source passes and the
/// machine is known; it then reports each of them.
pub proof fn law_preflights_report_what_was_found(
    manifest_path: Seq<u8>,
    allow_dirty: bool,
    requested: Option<&str>,
    facts: PreflightFacts,
)
    ensures
        ({
            let outcome = preflight_outcome(manifest_path, allow_dirty, requested, facts);
            let cargo = printed_version(facts.cargo_version, "Cargo"@);
            let rustc = printed_version(facts.rustc_version, "rustc"@);
            let lockfile = first_lockfile(facts.lockfiles@, 0);
            let found = outcome->Ok_0;
            let source = source_outcome(
                facts.manifest->Ok_0@,
                lockfile->0,
                allow_dirty,
                facts.git_root,
                facts.git_status,
            );
            let processor = processor_outcome(facts.cpu_info);
            &&& outcome is Ok <==> {
                &&& requested is Some ==> requested->0@ == "x86_64-unknown-linux-gnu"@
                &&& cargo is Ok && rustc is Ok
                &&& reported_host(rustc->Ok_0) == Ok::<Seq<char>, Seq<char>>(
                    "x86_64-unknown-linux-gnu"@,
                )
                &&& facts.operating_system@ == "linux"@
                &&& facts.manifest is Ok && facts.manifest_is_file
                &&& lockfile is Some && facts.lockfile_sha256 is Ok
                &&& source is Ok
                &&& facts.kernel_name is Ok && facts.kernel_release is Ok
                &&& processor is Ok && facts.logical_cores is Ok
            }
            &&& outcome is Ok ==> {
                &&& found.host_triple == "x86_64-unknown-linux-gnu"@
                &&& found.cargo_version == cargo->Ok_0
                &&& found.rustc_version == rustc->Ok_0
                &&& found.manifest_path == facts.manifest->Ok_0@
                &&& found.lockfile_path == lockfile->0
                &&& found.lockfile_sha256 == facts.lockfile_sha256->Ok_0@
                &&& found.source_reproducibility == source->Ok_0
                &&& found.kernel == trimmed(facts.kernel_name->Ok_0@) + " "@ + trimmed(
                    facts.kernel_release->Ok_0@,
                )
                &&& found.cpu_model == processor->Ok_0
                &&& found.logical_core_count == facts.logical_cores->Ok_0
            }
        }),
{
}

/// A version is what a tool printed, without the white space around it, wherever that is text of at
/// most 64 KiB.
pub proof fn law_versions_are_what_was_printed(probe: ToolProbe, name: Seq<char>)
    ensures
        ({
            let version = printed_version(probe, name);
            &&& version is Ok <==> probe is Printed && probe->Printed_0@.len() <= 65_536
                && valid_utf8(probe->Printed_0@)
            &&& version is Ok ==> version->Ok_0 == trimmed(decode_utf8(probe->Printed_0@))
        }),
{
}

} // verus!
