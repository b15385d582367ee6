//! Resolution of the compilers, and the directories of one interposed stage.

use vstd::prelude::*;
use vstd::string::*;
use vstd::utf8::*;

use crate::interposition::{
    profile_of, Injection, InterpositionPlan, InterpositionRecord, ShimStage, ShimTools,
    ShimToolsView,
};
use crate::paths::{
    file_name, file_name_of, find_spans, join, join_path, lies_within, parent, parent_path, parts,
    same_path, spans, starts_with,
};
use crate::text::{lossy, lossy_text, same_text, text2, text3, text4, trim, trimmed, utf8_text};

verus! {

/// What the file system says of a compiler program.
#[derive(Debug)]
pub struct ProgramProbe {
    /// The canonical path of the program's directory, or why there is none.
    pub directory: Result<Vec<u8>, String>,
    /// Whether the program in that directory is a regular file, or why it cannot be inspected.
    pub file: Result<bool, String>,
}

/// Where a compiler program lies, with a canonical parent and its own file name.
///
/// The final component is deliberately not resolved through symlinks: a rustup proxy dispatches
/// on its own file name, so following the link would execute `rustup` instead of the compiler it
/// proxies.
pub open spec fn resolved_program(program: Seq<u8>, probe: ProgramProbe) -> Result<
    Seq<u8>,
    Seq<char>,
> {
    if parent_path(program) is None || parent_path(program)->0.len() == 0 {
        Err("a compiler path needs a parent directory"@)
    } else if file_name_of(program) is None {
        Err("a compiler path needs a file name"@)
    } else {
        match probe.directory {
            Err(error) => Err("its directory could not be canonicalized: "@ + error@),
            Ok(directory) => match probe.file {
                Err(error) => Err(error@),
                Ok(regular) => if regular {
                    Ok(join_path(directory@, file_name_of(program)->0))
                } else {
                    Err("it is not a regular file"@)
                },
            },
        }
    }
}

/// Resolves a compiler program to an absolute path with a canonical parent.
pub fn absolute_program(program: &[u8], probe: &ProgramProbe) -> (resolved: Result<
    Vec<u8>,
    String,
>)
    ensures
        match resolved {
            Ok(path) => resolved_program(program@, *probe) == Ok::<Seq<u8>, Seq<char>>(path@),
            Err(message) => resolved_program(program@, *probe) == Err::<Seq<u8>, Seq<char>>(
                message@,
            ),
        },
{
    let has_parent: bool = match parent(program) {
        Some(directory) => directory.len() > 0,
        None => false,
    };
    if !has_parent {
        return Err("a compiler path needs a parent directory".to_owned());
    }
    let name = match file_name(program) {
        Some(name) => name,
        None => return Err("a compiler path needs a file name".to_owned()),
    };
    match &probe.directory {
        Err(error) => Err(text2("its directory could not be canonicalized: ", error.as_str())),
        Ok(directory) => match &probe.file {
            Err(error) => Err(error.clone()),
            Ok(regular) => if *regular {
                Ok(join(directory.as_slice(), name.as_slice()))
            } else {
                Err("it is not a regular file".to_owned())
            },
        },
    }
}

/// What running `rustc -Vv` gave.
#[derive(Debug)]
pub enum VersionProbe {
    NotStarted,
    Failed,
    Printed(Vec<u8>),
}

/// What identifies a shim and a compiler.
#[derive(Debug)]
pub struct IdentityProbe {
    /// The digest of the shim executable, or why it could not be hashed.
    pub shim_sha256: Result<String, String>,
    pub version: VersionProbe,
}

/// The identity that the compiler printed, or why there is none.
pub open spec fn printed_identity(version: VersionProbe) -> Result<Seq<char>, Seq<char>> {
    match version {
        VersionProbe::NotStarted => Err(
            "The resolved real rustc identity probe could not start."@,
        ),
        VersionProbe::Failed => Err("The resolved real rustc identity probe failed."@),
        VersionProbe::Printed(output) => if valid_utf8(output@) {
            Ok(trimmed(decode_utf8(output@)))
        } else {
            Err("The resolved real rustc identity was not valid UTF-8."@)
        },
    }
}

/// The tools with a proved identity, or why they are refused.
pub open spec fn identity_outcome(
    shim_executable: Seq<u8>,
    real_rustc: Seq<u8>,
    probe: IdentityProbe,
    expected: Seq<char>,
) -> Result<ShimToolsView, Seq<char>> {
    match probe.shim_sha256 {
        Err(error) => Err("The Temper executable could not be hashed: "@ + error@),
        Ok(shim_sha256) => match printed_identity(probe.version) {
            Err(message) => Err(message),
            Ok(identity) => if identity == trimmed(expected) {
                Ok(
                    ShimToolsView {
                        shim_executable,
                        shim_sha256: shim_sha256@,
                        real_rustc,
                        real_rustc_version: identity,
                    },
                )
            } else {
                Err("The resolved real rustc identity does not match the preflight compiler."@)
            },
        },
    }
}

/// Hashes the shim and proves the real rustc identity before it is installed.
pub fn identified_tools(
    shim_executable: Vec<u8>,
    real_rustc: Vec<u8>,
    probe: &IdentityProbe,
    expected_rustc_version: &str,
) -> (tools: Result<ShimTools, String>)
    ensures
        match tools {
            Ok(found) => identity_outcome(
                shim_executable@,
                real_rustc@,
                *probe,
                expected_rustc_version@,
            ) == Ok::<ShimToolsView, Seq<char>>(found@),
            Err(message) => identity_outcome(
                shim_executable@,
                real_rustc@,
                *probe,
                expected_rustc_version@,
            ) == Err::<ShimToolsView, Seq<char>>(message@),
        },
{
    let shim_sha256 = match &probe.shim_sha256 {
        Ok(digest) => digest.clone(),
        Err(error) => return Err(
            text2("The Temper executable could not be hashed: ", error.as_str()),
        ),
    };
    let output = match &probe.version {
        VersionProbe::NotStarted => return Err(
            "The resolved real rustc identity probe could not start.".to_owned(),
        ),
        VersionProbe::Failed => return Err(
            "The resolved real rustc identity probe failed.".to_owned(),
        ),
        VersionProbe::Printed(output) => output,
    };
    let real_rustc_version = match utf8_text(output.as_slice()) {
        Some(text) => trim(text),
        None => return Err("The resolved real rustc identity was not valid UTF-8.".to_owned()),
    };
    let expected = trim(expected_rustc_version);
    if real_rustc_version != expected {
        return Err(
            "The resolved real rustc identity does not match the preflight compiler.".to_owned(),
        );
    }
    Ok(ShimTools { shim_executable, shim_sha256, real_rustc, real_rustc_version })
}

/// What resolving the running executable gave.
#[derive(Debug)]
pub struct ExecutableProbe {
    /// The canonical path, or why there is none.
    pub canonical: Result<Vec<u8>, String>,
    /// Whether it is a regular file.
    pub regular: bool,
}

/// The tools of a run, or why they could not be resolved.
pub open spec fn tools_outcome(
    shim: ExecutableProbe,
    rustc: Result<Vec<u8>, String>,
    probe: IdentityProbe,
    expected: Seq<char>,
) -> Result<ShimToolsView, Seq<char>> {
    match shim.canonical {
        Err(error) => Err("The Temper executable could not be resolved: "@ + error@),
        Ok(executable) => if !shim.regular {
            Err("The Temper executable is not a regular file."@)
        } else {
            match rustc {
                Err(message) => Err(message@),
                Ok(compiler) => identity_outcome(executable@, compiler@, probe, expected),
            }
        },
    }
}

/// Resolves the shim executable and the real rustc before any `RUSTC` override.
pub fn resolve_tools(
    shim: ExecutableProbe,
    rustc: Result<Vec<u8>, String>,
    probe: &IdentityProbe,
    expected_rustc_version: &str,
) -> (tools: Result<ShimTools, String>)
    ensures
        match tools {
            Ok(found) => tools_outcome(shim, rustc, *probe, expected_rustc_version@) == Ok::<
                ShimToolsView,
                Seq<char>,
            >(found@),
            Err(message) => tools_outcome(shim, rustc, *probe, expected_rustc_version@) == Err::<
                ShimToolsView,
                Seq<char>,
            >(message@),
        },
{
    let executable = match shim.canonical {
        Ok(path) => path,
        Err(error) => return Err(
            text2("The Temper executable could not be resolved: ", error.as_str()),
        ),
    };
    if !shim.regular {
        return Err("The Temper executable is not a regular file.".to_owned());
    }
    match rustc {
        Err(message) => Err(message),
        Ok(compiler) => identified_tools(executable, compiler, probe, expected_rustc_version),
    }
}

/// The recorded tools, revalidated, or why they are refused.
pub open spec fn validation_outcome(
    recorded: InterpositionRecord,
    shim: ExecutableProbe,
    compiler: ProgramProbe,
    probe: IdentityProbe,
) -> Result<ShimToolsView, Seq<char>> {
    match shim.canonical {
        Err(error) => Err("The recorded Temper executable is unavailable: "@ + error@),
        Ok(executable) => match resolved_program(recorded.real_rustc@, compiler) {
            Err(error) => Err("The recorded real rustc is unavailable: "@ + error),
            Ok(resolved) => if parts(executable@) != parts(recorded.shim_executable@) || parts(
                resolved,
            ) != parts(recorded.real_rustc@) || !shim.regular {
                Err("A recorded compiler path changed since the accepted PGO build."@)
            } else {
                match identity_outcome(
                    executable@,
                    resolved,
                    probe,
                    recorded.real_rustc_version@,
                ) {
                    Err(message) => Err(message),
                    Ok(tools) => if tools.shim_sha256 == recorded.shim_sha256@ {
                        Ok(tools)
                    } else {
                        Err("The Temper executable changed since the accepted PGO build."@)
                    },
                }
            },
        },
    }
}

/// Revalidates a previously recorded shim and real rustc pair before reusing it for the
/// confirmation stage.
pub fn validated_tools(
    recorded: &InterpositionRecord,
    shim: ExecutableProbe,
    compiler: &ProgramProbe,
    probe: &IdentityProbe,
) -> (tools: Result<ShimTools, String>)
    ensures
        match tools {
            Ok(found) => validation_outcome(*recorded, shim, *compiler, *probe) == Ok::<
                ShimToolsView,
                Seq<char>,
            >(found@),
            Err(message) => validation_outcome(*recorded, shim, *compiler, *probe) == Err::<
                ShimToolsView,
                Seq<char>,
            >(message@),
        },
{
    let executable = match shim.canonical {
        Ok(path) => path,
        Err(error) => return Err(
            text2("The recorded Temper executable is unavailable: ", error.as_str()),
        ),
    };
    let resolved = match absolute_program(recorded.real_rustc.as_slice(), compiler) {
        Ok(path) => path,
        Err(error) => return Err(
            text2("The recorded real rustc is unavailable: ", error.as_str()),
        ),
    };
    if !same_path(executable.as_slice(), recorded.shim_executable.as_slice()) || !same_path(
        resolved.as_slice(),
        recorded.real_rustc.as_slice(),
    ) || !shim.regular {
        return Err("A recorded compiler path changed since the accepted PGO build.".to_owned());
    }
    match identified_tools(executable, resolved, probe, recorded.real_rustc_version.as_str()) {
        Err(message) => Err(message),
        Ok(tools) => if same_text(tools.shim_sha256.as_str(), recorded.shim_sha256.as_str()) {
            Ok(tools)
        } else {
            Err("The Temper executable changed since the accepted PGO build.".to_owned())
        },
    }
}

/// Whether a program is named by a path rather than searched for.
pub fn names_a_path(program: &[u8]) -> (named: bool)
    ensures
        named == (spans(program@).len() > 1),
{
    find_spans(program).len() > 1
}

/// What the file system says of one candidate on the search path.
#[derive(Clone, Copy, Debug)]
pub struct CandidateProbe {
    pub present: bool,
    pub regular: bool,
    pub mode: u32,
}

/// Whether a candidate is a regular file that someone may execute.
pub open spec fn is_executable_file(candidate: CandidateProbe) -> bool {
    candidate.present && candidate.regular && candidate.mode & 0o111 != 0
}

/// Finds the first executable candidate on the search path.
pub fn search_path(candidates: &Vec<CandidateProbe>) -> (found: Option<usize>)
    ensures
        match found {
            Some(place) => {
                &&& place < candidates@.len()
                &&& is_executable_file(candidates@[place as int])
                &&& forall|i: int| 0 <= i < place ==> !is_executable_file(#[trigger] candidates@[i])
            },
            None => forall|i: int|
                0 <= i < candidates@.len() ==> !is_executable_file(#[trigger] candidates@[i]),
        },
{
    let mut index: usize = 0;
    while index < candidates.len()
        invariant
            index <= candidates@.len(),
            forall|i: int| 0 <= i < index ==> !is_executable_file(#[trigger] candidates@[i]),
        decreases candidates@.len() - index,
    {
        let candidate: CandidateProbe = candidates[index];
        if candidate.present && candidate.regular && candidate.mode & 0o111 != 0 {
            return Some(index);
        }
        index = index + 1;
    }
    None
}

/// How the active compiler was looked for.
#[derive(Debug)]
pub enum CompilerSearch {
    /// It was named by a path, or found on the search path, as this program.
    Program(Vec<u8>, ProgramProbe),
    /// There is no search path.
    NoSearchPath,
    /// No directory of the search path holds it.
    NotFound,
}

/// The active compiler, or why it could not be resolved.
pub open spec fn compiler_outcome(search: CompilerSearch) -> Result<Seq<u8>, Seq<char>> {
    match search {
        CompilerSearch::NoSearchPath => Err(
            "PATH is unset; the active rustc cannot be resolved."@,
        ),
        CompilerSearch::NotFound => Err("The active rustc was not found on PATH."@),
        CompilerSearch::Program(program, probe) => match resolved_program(program@, probe) {
            Ok(path) => Ok(path),
            Err(error) => Err("The active rustc could not be resolved: "@ + error),
        },
    }
}

/// Resolves the active compiler.
pub fn resolve_real_rustc(search: &CompilerSearch) -> (resolved: Result<Vec<u8>, String>)
    ensures
        match resolved {
            Ok(path) => compiler_outcome(*search) == Ok::<Seq<u8>, Seq<char>>(path@),
            Err(message) => compiler_outcome(*search) == Err::<Seq<u8>, Seq<char>>(message@),
        },
{
    match search {
        CompilerSearch::NoSearchPath => Err(
            "PATH is unset; the active rustc cannot be resolved.".to_owned(),
        ),
        CompilerSearch::NotFound => Err("The active rustc was not found on PATH.".to_owned()),
        CompilerSearch::Program(program, probe) => match absolute_program(
            program.as_slice(),
            probe,
        ) {
            Ok(path) => Ok(path),
            Err(error) => Err(
                text2("The active rustc could not be resolved: ", error.as_str()),
            ),
        },
    }
}

/// What claiming one stage directory gave.
#[derive(Debug)]
pub enum ClaimEvent {
    AlreadyExists,
    NotCreated(String),
    NotCanonical(String),
    Canonical(Vec<u8>),
}

/// The claimed directory, or why the claim failed.
pub open spec fn claim_outcome(path: Seq<u8>, event: ClaimEvent) -> Result<Seq<u8>, Seq<char>> {
    match event {
        ClaimEvent::AlreadyExists => Err(
            "Interposed stage directory "@ + lossy_text(path)
                + " already exists; every stage requires a unique initially absent directory."@,
        ),
        ClaimEvent::NotCreated(error) => Err(
            "Could not create the interposed stage directory "@ + lossy_text(path) + ": "@
                + error@,
        ),
        ClaimEvent::NotCanonical(error) => Err(
            "Could not canonicalize the interposed stage directory "@ + lossy_text(path) + ": "@
                + error@,
        ),
        ClaimEvent::Canonical(canonical) => if parts(canonical@) == parts(path) {
            Ok(canonical@)
        } else {
            Err(
                "Interposed stage directory "@ + lossy_text(path)
                    + " aliases another canonical path."@,
            )
        },
    }
}

/// Decides one claim of an initially absent directory.
pub fn claim_directory(path: &[u8], event: ClaimEvent) -> (claimed: Result<Vec<u8>, String>)
    ensures
        match claimed {
            Ok(found) => claim_outcome(path@, event) == Ok::<Seq<u8>, Seq<char>>(found@),
            Err(message) => claim_outcome(path@, event) == Err::<Seq<u8>, Seq<char>>(message@),
        },
{
    let shown = lossy(path);
    match event {
        ClaimEvent::AlreadyExists => Err(
            text3(
                "Interposed stage directory ",
                shown.as_str(),
                " already exists; every stage requires a unique initially absent directory.",
            ),
        ),
        ClaimEvent::NotCreated(error) => Err(
            text4(
                "Could not create the interposed stage directory ",
                shown.as_str(),
                ": ",
                error.as_str(),
            ),
        ),
        ClaimEvent::NotCanonical(error) => Err(
            text4(
                "Could not canonicalize the interposed stage directory ",
                shown.as_str(),
                ": ",
                error.as_str(),
            ),
        ),
        ClaimEvent::Canonical(canonical) => if same_path(canonical.as_slice(), path) {
            Ok(canonical)
        } else {
            Err(
                text3(
                    "Interposed stage directory ",
                    shown.as_str(),
                    " aliases another canonical path.",
                ),
            )
        },
    }
}

/// What preparing one interposition root gave.
#[derive(Debug)]
pub enum RootEvent {
    NotCreated(String),
    NotCanonical(String),
    Canonical(Vec<u8>),
}

/// The canonical root, or why there is none.
pub open spec fn root_outcome(root: Seq<u8>, event: RootEvent) -> Result<Seq<u8>, Seq<char>> {
    match event {
        RootEvent::NotCreated(error) => Err(
            "Could not create the interposition root "@ + lossy_text(root) + ": "@ + error@,
        ),
        RootEvent::NotCanonical(error) => Err(
            "Could not canonicalize the interposition root "@ + lossy_text(root) + ": "@ + error@,
        ),
        RootEvent::Canonical(path) => Ok(path@),
    }
}

/// Decides one preparation of an interposition root.
pub fn canonical_root(root: &[u8], event: RootEvent) -> (path: Result<Vec<u8>, String>)
    ensures
        match path {
            Ok(found) => root_outcome(root@, event) == Ok::<Seq<u8>, Seq<char>>(found@),
            Err(message) => root_outcome(root@, event) == Err::<Seq<u8>, Seq<char>>(message@),
        },
{
    let shown = lossy(root);
    match event {
        RootEvent::NotCreated(error) => Err(
            text4(
                "Could not create the interposition root ",
                shown.as_str(),
                ": ",
                error.as_str(),
            ),
        ),
        RootEvent::NotCanonical(error) => Err(
            text4(
                "Could not canonicalize the interposition root ",
                shown.as_str(),
                ": ",
                error.as_str(),
            ),
        ),
        RootEvent::Canonical(path) => Ok(path),
    }
}

/// Canonical target and capture directories of one interposed stage.
#[derive(Debug)]
pub struct StageDirectories {
    pub target: Vec<u8>,
    pub capture: Vec<u8>,
}

/// Where a stage directory is claimed below its root.
pub fn stage_directory(root: &[u8], name: &str) -> (path: Vec<u8>)
    ensures
        path@ == join_path(root@, encode_utf8(name@)),
{
    join(root, name.as_bytes())
}

/// Why the plan of a stage is refused, once its directories are claimed.
pub open spec fn plan_refusal(
    run_root: Seq<u8>,
    target: Seq<u8>,
    capture: Seq<u8>,
    profile: Option<Seq<u8>>,
) -> Option<Seq<char>> {
    if !lies_within(target, run_root) {
        Some(
            "Interposed stage directory "@ + lossy_text(target) + " escaped the current run."@,
        )
    } else if !lies_within(capture, run_root) {
        Some(
            "Interposed stage directory "@ + lossy_text(capture) + " escaped the current run."@,
        )
    } else if profile is Some && !lies_within(profile->0, run_root) {
        Some("Every PGO profile path must stay inside the current run."@)
    } else {
        None
    }
}

/// Turns one claimed stage into its complete private protocol.
pub fn plan_stage(
    tools: &ShimTools,
    run_root: Vec<u8>,
    directories: StageDirectories,
    stage: ShimStage,
    injection: Injection,
) -> (plan: Result<InterpositionPlan, String>)
    ensures
        match plan {
            Ok(found) => {
                &&& plan_refusal(
                    run_root@,
                    directories.target@,
                    directories.capture@,
                    profile_of(injection@),
                ) is None
                &&& found.stage == stage
                &&& found.tools@ == tools@
                &&& found.run_root@ == run_root@
                &&& found.target_directory@ == directories.target@
                &&& found.capture_directory@ == directories.capture@
                &&& found.injection@ == injection@
            },
            Err(message) => plan_refusal(
                run_root@,
                directories.target@,
                directories.capture@,
                profile_of(injection@),
            ) == Some(message@),
        },
{
    if !starts_with(directories.target.as_slice(), run_root.as_slice()) {
        return Err(
            text3(
                "Interposed stage directory ",
                lossy(directories.target.as_slice()).as_str(),
                " escaped the current run.",
            ),
        );
    }
    if !starts_with(directories.capture.as_slice(), run_root.as_slice()) {
        return Err(
            text3(
                "Interposed stage directory ",
                lossy(directories.capture.as_slice()).as_str(),
                " escaped the current run.",
            ),
        );
    }
    let inside: bool = match injection.profile_path() {
        Some(path) => starts_with(path.as_slice(), run_root.as_slice()),
        None => true,
    };
    if !inside {
        return Err("Every PGO profile path must stay inside the current run.".to_owned());
    }
    Ok(
        InterpositionPlan {
            stage,
            tools: tools.clone(),
            run_root,
            target_directory: directories.target,
            capture_directory: directories.capture,
            injection,
        },
    )
}

/// Tools are resolved exactly where the shim is a regular file, the compiler was found, the shim
/// was hashed, and the compiler prints the expected identity; they are then those.
pub proof fn law_tools_are_the_probed_ones(
    shim: ExecutableProbe,
    rustc: Result<Vec<u8>, String>,
    probe: IdentityProbe,
    expected: Seq<char>,
)
    ensures
        ({
            let outcome = tools_outcome(shim, rustc, probe, expected);
            &&& outcome is Ok <==> {
                &&& shim.canonical is Ok && shim.regular
                &&& rustc is Ok
                &&& probe.shim_sha256 is Ok
                &&& printed_identity(probe.version) == Ok::<Seq<char>, Seq<char>>(trimmed(expected))
            }
            &&& outcome is Ok ==> {
                &&& outcome->Ok_0.shim_executable == shim.canonical->Ok_0@
                &&& outcome->Ok_0.shim_sha256 == probe.shim_sha256->Ok_0@
                &&& outcome->Ok_0.real_rustc == rustc->Ok_0@
                &&& outcome->Ok_0.real_rustc_version == trimmed(expected)
            }
        }),
{
}

/// Recorded tools are accepted again exactly where both still lie at their paths, the shim has its
/// digest, and the compiler prints its identity.
pub proof fn law_recorded_tools_must_not_change(
    recorded: InterpositionRecord,
    shim: ExecutableProbe,
    compiler: ProgramProbe,
    probe: IdentityProbe,
)
    ensures
        ({
            let outcome = validation_outcome(recorded, shim, compiler, probe);
            let resolved = resolved_program(recorded.real_rustc@, compiler);
            &&& outcome is Ok <==> {
                &&& shim.canonical is Ok && shim.regular
                &&& parts(shim.canonical->Ok_0@) == parts(recorded.shim_executable@)
                &&& resolved is Ok && parts(resolved->Ok_0) == parts(recorded.real_rustc@)
                &&& probe.shim_sha256 is Ok && probe.shim_sha256->Ok_0@ == recorded.shim_sha256@
                &&& printed_identity(probe.version) == Ok::<Seq<char>, Seq<char>>(
                    trimmed(recorded.real_rustc_version@),
                )
            }
            &&& outcome is Ok ==> {
                &&& outcome->Ok_0.shim_executable == shim.canonical->Ok_0@
                &&& outcome->Ok_0.real_rustc == resolved->Ok_0
                &&& outcome->Ok_0.shim_sha256 == recorded.shim_sha256@
            }
        }),
{
}

/// A program is resolved by the canonical path of its directory and its own name, and only where it
/// is a regular file there.
pub proof fn law_programs_keep_their_names(program: Seq<u8>, probe: ProgramProbe)
    ensures
        ({
            let outcome = resolved_program(program, probe);
            &&& outcome is Ok <==> {
                &&& parent_path(program) is Some && parent_path(program)->0.len() > 0
                &&& file_name_of(program) is Some
                &&& probe.directory is Ok
                &&& probe.file is Ok && probe.file->Ok_0
            }
            &&& outcome is Ok ==> outcome->Ok_0 == join_path(
                probe.directory->Ok_0@,
                file_name_of(program)->0,
            )
        }),
{
}

/// A stage directory is claimed exactly where it was made anew and is not another path's alias; a
/// plan is refused exactly where a directory or the profile of its stage lies outside the run.
pub proof fn law_stages_stay_inside_their_run(
    path: Seq<u8>,
    event: ClaimEvent,
    run_root: Seq<u8>,
    capture: Seq<u8>,
    profile: Option<Seq<u8>>,
)
    ensures
        claim_outcome(path, event) is Ok <==> event is Canonical && parts(event->Canonical_0@)
            == parts(path),
        claim_outcome(path, event) is Ok ==> claim_outcome(path, event)->Ok_0
            == event->Canonical_0@,
        plan_refusal(run_root, path, capture, profile) is None <==> {
            &&& lies_within(path, run_root)
            &&& lies_within(capture, run_root)
            &&& profile is Some ==> lies_within(profile->0, run_root)
        },
{
}

} // verus!
