//! Target selection, Cargo builds and their bounded diagnostics.

use vstd::prelude::*;
use vstd::slice::slice_to_vec;
use vstd::string::*;
use vstd::utf8::*;

use crate::capture::{CaptureAggregate, CaptureFailure};
use crate::error::TemperError;
use crate::hash::{encode_texts, encoded};
use crate::interposition::{
    records_plan, InterpositionRecord, INPUT_AMBIGUITY_REASON, INPUT_CONFLICT_REASON,
    PROTOCOL_FAILURE_REASON, SUPPORTED_HOST,
};
use crate::order::{arrange, byte_order, order_keys, picked};
use crate::paths::{join, join_path, lies_within, parts, same_path, starts_with};
use crate::strategy::{identity_label, BuildPlan, BuildStage, Strategy};
use crate::text::{
    bounded_prefix, bounded_text, byte_len, byte_strings, contains_text, copy_texts, join_texts,
    joined_texts, law_bounded_texts_are_the_longest_that_fit, lemma_ascii_bytes, lemma_bounded_text_fits, lemma_encode_concat, lossy,
    lossy_text, optional_bytes, optional_text, same_text, text2, text3, text4, text5, texts,
};

verus! {

/// The bytes of diagnostics that one build keeps.
pub const DIAGNOSTIC_LIMIT: usize = 65_536;

/// Diagnostics cut to a bounded length.
#[derive(Debug)]
pub struct BoundedDiagnostics {
    pub text: String,
    pub truncated: bool,
}

/// Diagnostics, as a sequence.
#[verifier::ext_equal]
pub struct DiagnosticsView {
    pub text: Seq<char>,
    pub truncated: bool,
}

impl View for BoundedDiagnostics {
    type V = DiagnosticsView;

    open spec fn view(&self) -> DiagnosticsView {
        DiagnosticsView { text: self.text@, truncated: self.truncated }
    }
}

/// Diagnostics before anything was said.
pub open spec fn no_diagnostics() -> DiagnosticsView {
    DiagnosticsView { text: Seq::empty(), truncated: false }
}

/// The bytes that one more value may take, after its separator.
pub open spec fn diagnostic_room(text: Seq<char>) -> nat {
    let taken = byte_len(text) + if text.len() == 0 {
        0nat
    } else {
        1nat
    };
    if taken >= DIAGNOSTIC_LIMIT {
        0
    } else {
        (DIAGNOSTIC_LIMIT - taken) as nat
    }
}

/// Diagnostics with one more value on a line of its own, as far as there is room.
pub open spec fn pushed(diagnostics: DiagnosticsView, value: Seq<char>) -> DiagnosticsView {
    let room = diagnostic_room(diagnostics.text);
    if value.len() == 0 {
        diagnostics
    } else if room == 0 {
        DiagnosticsView { text: diagnostics.text, truncated: true }
    } else {
        let separator = if diagnostics.text.len() == 0 {
            Seq::empty()
        } else {
            seq!['\n']
        };
        DiagnosticsView {
            text: diagnostics.text + separator + bounded_text(value, room),
            truncated: diagnostics.truncated || bounded_text(value, room) != value,
        }
    }
}

/// The most bytes, at most `maximum`, after which `value` can be cut.
pub fn floor_char_boundary(value: &str, maximum: usize) -> (boundary: usize)
    ensures
        boundary == byte_len(bounded_text(value@, maximum as nat)),
{
    bounded_prefix(value, maximum).as_str().as_bytes().len()
}

impl BoundedDiagnostics {
    pub fn new() -> (diagnostics: BoundedDiagnostics)
        ensures
            diagnostics@ == no_diagnostics(),
    {
        let text = String::new();
        assert(text@ =~= Seq::<char>::empty());
        BoundedDiagnostics { text, truncated: false }
    }

    /// Adds a value on a line of its own.
    pub fn push(&mut self, value: &str)
        ensures
            final(self)@ == pushed(old(self)@, value@),
    {
        proof {
            lemma_empty_bytes(value@);
            lemma_empty_bytes(self.text@);
        }
        if value.as_bytes().len() == 0 {
            return;
        }
        let length: usize = self.text.as_str().as_bytes().len();
        let empty: bool = length == 0;
        let room: usize = if length >= DIAGNOSTIC_LIMIT {
            0
        } else if empty {
            DIAGNOSTIC_LIMIT
        } else {
            DIAGNOSTIC_LIMIT - length - 1
        };
        if room == 0 {
            self.truncated = true;
            return;
        }
        if !empty {
            self.text.push('\n');
        }
        let prefix = bounded_prefix(value, room);
        self.text.append(prefix.as_str());
        if !same_text(prefix.as_str(), value) {
            self.truncated = true;
        }
        assert(self@ =~= pushed(old(self)@, value@));
    }
}

proof fn lemma_empty_bytes(text: Seq<char>)
    ensures
        byte_len(text) == 0 <==> text.len() == 0,
{
    reveal_with_fuel(encode_utf8, 2);
    if text.len() > 0 {
        assert(encode_utf8(text).len() >= encode_scalar(text[0] as u32).len());
    }
}

/// Diagnostics that fit their limit still fit it after one more value.
pub proof fn law_diagnostics_stay_bounded(diagnostics: DiagnosticsView, value: Seq<char>)
    requires
        byte_len(diagnostics.text) <= DIAGNOSTIC_LIMIT,
    ensures
        byte_len(pushed(diagnostics, value).text) <= DIAGNOSTIC_LIMIT,
        diagnostics.truncated ==> pushed(diagnostics, value).truncated,
        diagnostics.text.is_prefix_of(pushed(diagnostics, value).text),
{
    let room = diagnostic_room(diagnostics.text);
    let prefix = bounded_text(value, room);
    let separator = if diagnostics.text.len() == 0 {
        Seq::<char>::empty()
    } else {
        seq!['\n']
    };
    lemma_bounded_text_fits(value, room);
    lemma_encode_concat(diagnostics.text + separator, prefix);
    lemma_encode_concat(diagnostics.text, separator);
    lemma_empty_bytes(Seq::empty());
    lemma_empty_bytes(diagnostics.text);
    assert(vstd::utf8::is_ascii_chars(seq!['\n']));
    lemma_ascii_bytes(seq!['\n']);
}

/// The text that a byte string is shown as, cut to the diagnostic limit.
pub fn diagnostic_text(bytes: &[u8]) -> (text: String)
    ensures
        text@ == bounded_text(lossy_text(bytes@), DIAGNOSTIC_LIMIT as nat),
{
    bounded_prefix(lossy(bytes).as_str(), DIAGNOSTIC_LIMIT)
}

/// What one read of Cargo's standard error gave.
#[derive(Debug)]
pub enum StreamRead {
    Ended,
    Chunk(Vec<u8>),
    Failed(String),
}

/// The diagnostics after one read.
pub open spec fn drained(diagnostics: DiagnosticsView, read: StreamRead) -> DiagnosticsView {
    match read {
        StreamRead::Ended => diagnostics,
        StreamRead::Chunk(bytes) => pushed(diagnostics, lossy_text(bytes@)),
        StreamRead::Failed(error) => pushed(
            diagnostics,
            "Could not read Cargo stderr: "@ + error@,
        ),
    }
}

/// Takes one read of Cargo's standard error, and says whether another is due.
pub fn drain_bounded(diagnostics: &mut BoundedDiagnostics, read: &StreamRead) -> (more: bool)
    ensures
        final(diagnostics)@ == drained(old(diagnostics)@, *read),
        more == (read is Chunk),
{
    match read {
        StreamRead::Ended => false,
        StreamRead::Chunk(bytes) => {
            diagnostics.push(lossy(bytes.as_slice()).as_str());
            true
        },
        StreamRead::Failed(error) => {
            diagnostics.push(text2("Could not read Cargo stderr: ", error.as_str()).as_str());
            false
        },
    }
}

/// One target of a package.
#[derive(Debug)]
pub struct PackageTarget {
    pub name: String,
    pub binary: bool,
}

/// One package that Cargo resolved.
#[derive(Debug)]
pub struct Package {
    pub id: String,
    pub name: String,
    pub targets: Vec<PackageTarget>,
}

/// What Cargo resolved of a workspace.
#[derive(Debug)]
pub struct Workspace {
    pub root: Vec<u8>,
    pub members: Vec<String>,
    pub packages: Vec<Package>,
}

/// One package, as sequences: each target with its name and whether it is a binary.
pub struct PackageView {
    pub id: Seq<char>,
    pub name: Seq<char>,
    pub targets: Seq<(Seq<char>, bool)>,
}

/// A workspace, as sequences.
pub struct WorkspaceView {
    pub root: Seq<u8>,
    pub members: Seq<Seq<char>>,
    pub packages: Seq<PackageView>,
}

impl View for Package {
    type V = PackageView;

    open spec fn view(&self) -> PackageView {
        PackageView {
            id: self.id@,
            name: self.name@,
            targets: self.targets@.map_values(
                |target: PackageTarget| (target.name@, target.binary),
            ),
        }
    }
}

impl View for Workspace {
    type V = WorkspaceView;

    open spec fn view(&self) -> WorkspaceView {
        WorkspaceView {
            root: self.root@,
            members: texts(self.members@),
            packages: self.packages@.map_values(|package: Package| package@),
        }
    }
}

/// The workspace that a metadata document of Cargo describes, or the parser's message.
pub uninterp spec fn metadata_document(bytes: Seq<u8>) -> Result<WorkspaceView, Seq<char>>;

/// Parses Cargo's metadata with `serde_json::from_slice` into a `cargo_metadata::Metadata`, and
/// keeps its members, packages and targets. The contract claims that the outcome, a workspace or
/// a message, is a function of the bytes.
#[verifier::external_body]
pub(crate) fn parse_metadata(bytes: &[u8]) -> (outcome: Result<Workspace, String>)
    ensures
        match outcome {
            Ok(workspace) => metadata_document(bytes@) == Ok::<WorkspaceView, Seq<char>>(
                workspace@,
            ),
            Err(message) => metadata_document(bytes@) == Err::<WorkspaceView, Seq<char>>(message@),
        },
{
    let found: cargo_metadata::Metadata = serde_json::from_slice(bytes).map_err(|e| e.to_string())?;
    let target = |target: cargo_metadata::Target| PackageTarget {
        binary: target.is_bin(),
        name: target.name,
    };
    let package = |package: cargo_metadata::Package| Package {
        id: package.id.repr,
        name: package.name.to_string(),
        targets: package.targets.into_iter().map(target).collect(),
    };
    Ok(Workspace {
        root: found.workspace_root.into_string().into_bytes(),
        members: found.workspace_members.into_iter().map(|id| id.repr).collect(),
        packages: found.packages.into_iter().map(package).collect(),
    })
}

/// The binary that a run builds.
#[derive(Debug)]
pub struct TargetSelection {
    pub package_id: String,
    pub package_name: String,
    pub binary_name: String,
    pub workspace_root: Vec<u8>,
}

/// A selected binary, as sequences.
pub struct SelectionView {
    pub package_id: Seq<char>,
    pub package_name: Seq<char>,
    pub binary_name: Seq<char>,
    pub workspace_root: Seq<u8>,
}

impl View for TargetSelection {
    type V = SelectionView;

    open spec fn view(&self) -> SelectionView {
        SelectionView {
            package_id: self.package_id@,
            package_name: self.package_name@,
            binary_name: self.binary_name@,
            workspace_root: self.workspace_root@,
        }
    }
}

impl Clone for TargetSelection {
    fn clone(&self) -> (copy: TargetSelection)
        ensures
            copy@ == self@,
    {
        TargetSelection {
            package_id: self.package_id.clone(),
            package_name: self.package_name.clone(),
            binary_name: self.binary_name.clone(),
            workspace_root: self.workspace_root.clone(),
        }
    }
}

/// The view of an optional name.
pub open spec fn optional_name(name: Option<&str>) -> Option<Seq<char>> {
    match name {
        Some(text) => Some(text@),
        None => None,
    }
}

/// Whether `name` is the one asked for, if one was asked for.
pub open spec fn is_requested(requested: Option<Seq<char>>, name: Seq<char>) -> bool {
    requested is None || requested->0 == name
}

fn matches_request(requested: Option<&str>, name: &str) -> (matched: bool)
    ensures
        matched == is_requested(optional_name(requested), name@),
{
    match requested {
        Some(wanted) => same_text(wanted, name),
        None => true,
    }
}

/// The selections among the first `count` targets of a package.
pub open spec fn target_choices(
    root: Seq<u8>,
    package: PackageView,
    binary: Option<Seq<char>>,
    count: int,
) -> Seq<SelectionView>
    decreases count,
{
    if count <= 0 {
        Seq::empty()
    } else {
        let earlier = target_choices(root, package, binary, count - 1);
        let (name, is_binary) = package.targets[count - 1];
        if is_binary && is_requested(binary, name) {
            earlier.push(
                SelectionView {
                    package_id: package.id,
                    package_name: package.name,
                    binary_name: name,
                    workspace_root: root,
                },
            )
        } else {
            earlier
        }
    }
}

/// The selections among the first `count` packages of a workspace.
pub open spec fn package_choices(
    workspace: WorkspaceView,
    package: Option<Seq<char>>,
    binary: Option<Seq<char>>,
    count: int,
) -> Seq<SelectionView>
    decreases count,
{
    if count <= 0 {
        Seq::empty()
    } else {
        let earlier = package_choices(workspace, package, binary, count - 1);
        let last = workspace.packages[count - 1];
        if workspace.members.contains(last.id) && is_requested(package, last.name) {
            earlier + target_choices(workspace.root, last, binary, last.targets.len() as int)
        } else {
            earlier
        }
    }
}

/// The name under which a selection is offered.
pub open spec fn choice_label(choice: SelectionView) -> Seq<char> {
    choice.package_name + "/"@ + choice.binary_name
}

/// The names of all binaries of a workspace, in byte order.
pub open spec fn choice_labels(workspace: WorkspaceView) -> Seq<Seq<char>> {
    let labels = package_choices(workspace, None, None, workspace.packages.len() as int).map_values(
        |choice: SelectionView| choice_label(choice),
    );
    picked(labels, byte_order(encoded(labels)))
}

/// Why no selection could be made, with the binaries that could be selected.
pub open spec fn selection_message(message: Seq<char>, workspace: WorkspaceView) -> Seq<char> {
    let labels = choice_labels(workspace);
    let choices = if labels.len() == 0 {
        "none (libraries, examples, tests, and benchmarks are unsupported)"@
    } else {
        joined_texts(labels, ", "@)
    };
    message
        + " Temper v0.0.1 supports only host Cargo binary targets. Valid package/binary choices: "@
        + choices
}

/// The one binary that was asked for, or why there is none.
pub open spec fn selection_outcome(
    workspace: WorkspaceView,
    package: Option<Seq<char>>,
    binary: Option<Seq<char>>,
) -> Result<SelectionView, Seq<char>> {
    let choices = package_choices(workspace, package, binary, workspace.packages.len() as int);
    if choices.len() == 1 {
        Ok(choices[0])
    } else if choices.len() == 0 {
        Err(selection_message("No supported Cargo binary matched the selection."@, workspace))
    } else {
        Err(selection_message("Select one target with --package and --bin."@, workspace))
    }
}

/// The views of a list of selections.
pub open spec fn selections(choices: Seq<TargetSelection>) -> Seq<SelectionView> {
    choices.map_values(|choice: TargetSelection| choice@)
}

/// Adds the selections of one package.
fn push_target_choices(
    choices: &mut Vec<TargetSelection>,
    root: &Vec<u8>,
    package: &Package,
    binary: Option<&str>,
)
    ensures
        selections(final(choices)@) == selections(old(choices)@) + target_choices(
            root@,
            package@,
            optional_name(binary),
            package@.targets.len() as int,
        ),
{
    let ghost before = selections(choices@);
    let mut index: usize = 0;
    assert(selections(choices@) =~= before + Seq::<SelectionView>::empty());
    while index < package.targets.len()
        invariant
            index <= package.targets@.len(),
            selections(choices@) == before + target_choices(
                root@,
                package@,
                optional_name(binary),
                index as int,
            ),
        decreases package.targets@.len() - index,
    {
        let target: &PackageTarget = &package.targets[index];
        assert(package@.targets[index as int] == (target.name@, target.binary));
        if target.binary && matches_request(binary, target.name.as_str()) {
            let ghost known = choices@;
            let choice = TargetSelection {
                package_id: package.id.clone(),
                package_name: package.name.clone(),
                binary_name: target.name.clone(),
                workspace_root: root.clone(),
            };
            choices.push(choice);
            assert(selections(choices@) =~= selections(known).push(choice@));
            assert(selections(choices@) =~= before + target_choices(
                root@,
                package@,
                optional_name(binary),
                index + 1,
            ));
        }
        index = index + 1;
    }
}

/// The selections that a request leaves.
fn find_choices(workspace: &Workspace, package: Option<&str>, binary: Option<&str>) -> (choices:
    Vec<TargetSelection>)
    ensures
        selections(choices@) == package_choices(
            workspace@,
            optional_name(package),
            optional_name(binary),
            workspace@.packages.len() as int,
        ),
{
    let mut choices: Vec<TargetSelection> = Vec::new();
    let mut index: usize = 0;
    assert(selections(choices@) =~= Seq::<SelectionView>::empty());
    while index < workspace.packages.len()
        invariant
            index <= workspace.packages@.len(),
            selections(choices@) == package_choices(
                workspace@,
                optional_name(package),
                optional_name(binary),
                index as int,
            ),
        decreases workspace.packages@.len() - index,
    {
        let candidate: &Package = &workspace.packages[index];
        assert(workspace@.packages[index as int] == candidate@);
        if contains_text(&workspace.members, candidate.id.as_str()) && matches_request(
            package,
            candidate.name.as_str(),
        ) {
            push_target_choices(&mut choices, &workspace.root, candidate, binary);
        }
        index = index + 1;
    }
    choices
}

/// Explains a failed selection with the binaries that could be selected.
pub fn selection_error(message: &str, workspace: &Workspace) -> (error: TemperError)
    ensures
        error@ == selection_message(message@, workspace@),
{
    let choices = find_choices(workspace, None, None);
    let mut labels: Vec<String> = Vec::new();
    let ghost expected = selections(choices@).map_values(
        |choice: SelectionView| choice_label(choice),
    );
    let mut index: usize = 0;
    while index < choices.len()
        invariant
            index <= choices@.len(),
            expected == selections(choices@).map_values(
                |choice: SelectionView| choice_label(choice),
            ),
            texts(labels@) == expected.take(index as int),
        decreases choices@.len() - index,
    {
        let ghost known = labels@;
        let label = text3(
            choices[index].package_name.as_str(),
            "/",
            choices[index].binary_name.as_str(),
        );
        proof {
            assert(selections(choices@)[index as int] == choices@[index as int]@);
            assert(label@ == expected[index as int]);
        }
        labels.push(label);
        assert(texts(labels@) =~= texts(known).push(label@));
        assert(expected.take(index + 1) =~= expected.take(index as int).push(
            expected[index as int],
        ));
        index = index + 1;
    }
    assert(expected.take(index as int) =~= expected);
    let keys = encode_texts(&labels);
    let order = order_keys(&keys);
    let ghost unordered = labels@;
    let arranged = arrange(labels, &order);
    proof {
        assert(texts(arranged@) =~= choice_labels(workspace@)) by {
            assert forall|i: int| 0 <= i < arranged@.len() implies texts(arranged@)[i]
                == choice_labels(workspace@)[i] by {
                assert(arranged@[i] == unordered[order@[i] as int]);
                assert(texts(unordered)[order@[i] as int] == unordered[order@[i] as int]@);
            }
        }
    }
    let listed = if arranged.len() == 0 {
        "none (libraries, examples, tests, and benchmarks are unsupported)".to_owned()
    } else {
        join_texts(&arranged, ", ")
    };
    TemperError::new(
        text3(
            message,
            " Temper v0.0.1 supports only host Cargo binary targets. Valid package/binary choices: ",
            listed.as_str(),
        ),
    )
}

/// Selects the one binary that was asked for.
pub fn select_binary(
    workspace: &Workspace,
    requested_package: Option<&str>,
    requested_binary: Option<&str>,
) -> (selection: Result<TargetSelection, TemperError>)
    ensures
        match selection {
            Ok(found) => selection_outcome(
                workspace@,
                optional_name(requested_package),
                optional_name(requested_binary),
            ) == Ok::<SelectionView, Seq<char>>(found@),
            Err(error) => selection_outcome(
                workspace@,
                optional_name(requested_package),
                optional_name(requested_binary),
            ) == Err::<SelectionView, Seq<char>>(error@),
        },
{
    let mut choices = find_choices(workspace, requested_package, requested_binary);
    if choices.len() == 0 {
        return Err(
            selection_error("No supported Cargo binary matched the selection.", workspace),
        );
    }
    if choices.len() > 1 {
        return Err(selection_error("Select one target with --package and --bin.", workspace));
    }
    assert(selections(choices@)[0] == choices@[0]@);
    Ok(choices.swap_remove(0))
}

/// What asking Cargo for its metadata gave.
#[derive(Debug)]
pub enum MetadataProbe {
    NotStarted,
    /// Cargo failed, and wrote this on its standard error.
    Failed(Vec<u8>),
    Printed(Vec<u8>),
}

/// The workspace that Cargo reported, or why there is none.
pub open spec fn metadata_outcome(probe: MetadataProbe) -> Result<WorkspaceView, Seq<char>> {
    match probe {
        MetadataProbe::NotStarted => Err(
            "Cargo executable is unavailable; metadata resolution could not start."@,
        ),
        MetadataProbe::Failed(output) => Err(
            "Cargo metadata failed before any build: "@ + bounded_text(
                lossy_text(output@),
                DIAGNOSTIC_LIMIT as nat,
            ),
        ),
        MetadataProbe::Printed(output) => match metadata_document(output@) {
            Ok(workspace) => Ok(workspace),
            Err(error) => Err("Cargo metadata format 1 could not be parsed: "@ + error),
        },
    }
}

/// Reads the workspace that Cargo reported.
pub fn read_metadata(probe: &MetadataProbe) -> (workspace: Result<Workspace, TemperError>)
    ensures
        match workspace {
            Ok(found) => metadata_outcome(*probe) == Ok::<WorkspaceView, Seq<char>>(found@),
            Err(error) => metadata_outcome(*probe) == Err::<WorkspaceView, Seq<char>>(error@),
        },
{
    match probe {
        MetadataProbe::NotStarted => Err(
            TemperError::new(
                "Cargo executable is unavailable; metadata resolution could not start.".to_owned(),
            ),
        ),
        MetadataProbe::Failed(output) => Err(
            TemperError::new(
                text2(
                    "Cargo metadata failed before any build: ",
                    diagnostic_text(output.as_slice()).as_str(),
                ),
            ),
        ),
        MetadataProbe::Printed(output) => match parse_metadata(output.as_slice()) {
            Ok(workspace) => Ok(workspace),
            Err(error) => Err(
                TemperError::new(
                    text2("Cargo metadata format 1 could not be parsed: ", error.as_str()),
                ),
            ),
        },
    }
}

/// Where the lockfile of a workspace lies.
pub fn workspace_lockfile_path(workspace: &Workspace) -> (path: Vec<u8>)
    ensures
        path@ == join_path(workspace@.root, encode_utf8("Cargo.lock"@)),
{
    join(workspace.root.as_slice(), "Cargo.lock".as_bytes())
}

/// Why a lockfile is not the one of the resolved workspace.
pub open spec fn lockfile_refusal(
    workspace_lockfile: Option<Vec<u8>>,
    lockfile: Seq<u8>,
) -> Option<Seq<char>> {
    match workspace_lockfile {
        None => Some(
            "Temper v0.0.1 requires an existing Cargo.lock at the workspace root."@,
        ),
        Some(path) => if parts(path@) == parts(lockfile) {
            None
        } else {
            Some(
                "The discovered Cargo.lock does not belong to Cargo's resolved workspace root."@,
            )
        },
    }
}

/// Checks that the discovered lockfile is the one of the resolved workspace, whose own lockfile
/// has the canonical path `workspace_lockfile`, if it has one.
pub fn validate_workspace_lockfile(
    workspace_lockfile: &Option<Vec<u8>>,
    lockfile_path: &[u8],
) -> (valid: Result<(), TemperError>)
    ensures
        match valid {
            Ok(_) => lockfile_refusal(*workspace_lockfile, lockfile_path@) is None,
            Err(error) => lockfile_refusal(*workspace_lockfile, lockfile_path@) == Some(error@),
        },
{
    match workspace_lockfile {
        None => Err(
            TemperError::new(
                "Temper v0.0.1 requires an existing Cargo.lock at the workspace root.".to_owned(),
            ),
        ),
        Some(path) => if same_path(path.as_slice(), lockfile_path) {
            Ok(())
        } else {
            Err(
                TemperError::new(
                    "The discovered Cargo.lock does not belong to Cargo's resolved workspace root.".to_owned(),
                ),
            )
        },
    }
}

/// Selects the binary of a resolved workspace, once its lockfile is known to be its own.
pub fn resolve_target(
    workspace: &Workspace,
    workspace_lockfile: &Option<Vec<u8>>,
    lockfile_path: &[u8],
    requested_package: Option<&str>,
    requested_binary: Option<&str>,
) -> (selection: Result<TargetSelection, TemperError>)
    ensures
        match selection {
            Ok(found) => {
                &&& lockfile_refusal(*workspace_lockfile, lockfile_path@) is None
                &&& selection_outcome(
                    workspace@,
                    optional_name(requested_package),
                    optional_name(requested_binary),
                ) == Ok::<SelectionView, Seq<char>>(found@)
            },
            Err(error) => match lockfile_refusal(*workspace_lockfile, lockfile_path@) {
                Some(message) => error@ == message,
                None => selection_outcome(
                    workspace@,
                    optional_name(requested_package),
                    optional_name(requested_binary),
                ) == Err::<SelectionView, Seq<char>>(error@),
            },
        },
{
    match validate_workspace_lockfile(workspace_lockfile, lockfile_path) {
        Err(error) => Err(error),
        Ok(_) => select_binary(workspace, requested_package, requested_binary),
    }
}

/// How one Cargo build was invoked.
#[derive(Debug)]
pub struct BuildInvocation {
    pub strategy: Strategy,
    pub stage: BuildStage,
    pub cargo_arguments: Vec<String>,
    pub cargo_config_overrides: Vec<String>,
    pub target_directory: Vec<u8>,
    pub interposition: Option<InterpositionRecord>,
}

/// A finished build.
#[derive(Debug)]
pub struct BuildRecord {
    pub invocation: BuildInvocation,
    pub executable_path: Vec<u8>,
    pub sha256: String,
    pub size_bytes: u64,
    pub build_duration_ms: u128,
    pub bounded_diagnostics: String,
    pub diagnostics_truncated: bool,
    pub compiler_evidence: Option<CaptureAggregate>,
}

/// A failed build.
#[derive(Debug)]
pub struct BuildFailure {
    pub invocation: BuildInvocation,
    pub reason: &'static str,
    pub message: String,
    pub bounded_diagnostics: String,
    pub diagnostics_truncated: bool,
}

/// The reason of a build that failed for itself, not for its compiler evidence.
pub const BUILD_FAILED_REASON: &'static str = "cargo_build_failed";

/// The Cargo options that apply the first `count` overrides.
pub open spec fn override_words(overrides: Seq<Seq<char>>, count: int) -> Seq<Seq<u8>>
    decreases count,
{
    if count <= 0 {
        Seq::empty()
    } else {
        override_words(overrides, count - 1).push(encode_utf8("--config"@)).push(
            encode_utf8(overrides[count - 1]),
        )
    }
}

/// The arguments of one Cargo build.
pub open spec fn build_words(
    selection: SelectionView,
    target_directory: Seq<u8>,
    overrides: Seq<Seq<char>>,
) -> Seq<Seq<u8>> {
    seq![
        encode_utf8("build"@),
        encode_utf8("--release"@),
        encode_utf8("--locked"@),
        encode_utf8("--target"@),
        encode_utf8(SUPPORTED_HOST@),
        encode_utf8("--message-format=json"@),
        encode_utf8("--package"@),
        encode_utf8(selection.package_name),
        encode_utf8("--bin"@),
        encode_utf8(selection.binary_name),
        encode_utf8("--target-dir"@),
        target_directory,
    ] + override_words(overrides, overrides.len() as int)
}

fn push_word(words: &mut Vec<Vec<u8>>, word: &[u8])
    ensures
        byte_strings(final(words)@) == byte_strings(old(words)@).push(word@),
{
    words.push(slice_to_vec(word));
    assert(byte_strings(words@) =~= byte_strings(old(words)@).push(word@));
}

/// The arguments of one Cargo build.
pub fn build_arguments(selection: &TargetSelection, plan: &BuildPlan) -> (words: Vec<Vec<u8>>)
    ensures
        byte_strings(words@) == build_words(
            selection@,
            plan.target_directory@,
            texts(plan.cargo_config_overrides@),
        ),
{
    let mut words: Vec<Vec<u8>> = Vec::new();
    assert(byte_strings(words@) =~= Seq::<Seq<u8>>::empty());
    push_word(&mut words, "build".as_bytes());
    push_word(&mut words, "--release".as_bytes());
    push_word(&mut words, "--locked".as_bytes());
    push_word(&mut words, "--target".as_bytes());
    push_word(&mut words, SUPPORTED_HOST.as_bytes());
    push_word(&mut words, "--message-format=json".as_bytes());
    push_word(&mut words, "--package".as_bytes());
    push_word(&mut words, selection.package_name.as_str().as_bytes());
    push_word(&mut words, "--bin".as_bytes());
    push_word(&mut words, selection.binary_name.as_str().as_bytes());
    push_word(&mut words, "--target-dir".as_bytes());
    push_word(&mut words, plan.target_directory.as_slice());
    let ghost fixed = byte_strings(words@);
    let ghost overrides = texts(plan.cargo_config_overrides@);
    let mut index: usize = 0;
    assert(byte_strings(words@) =~= fixed + override_words(overrides, 0));
    while index < plan.cargo_config_overrides.len()
        invariant
            index <= plan.cargo_config_overrides@.len(),
            overrides == texts(plan.cargo_config_overrides@),
            byte_strings(words@) == fixed + override_words(overrides, index as int),
        decreases plan.cargo_config_overrides@.len() - index,
    {
        push_word(&mut words, "--config".as_bytes());
        push_word(&mut words, plan.cargo_config_overrides[index].as_str().as_bytes());
        assert(overrides[index as int] == plan.cargo_config_overrides@[index as int]@);
        assert(byte_strings(words@) =~= fixed + override_words(overrides, index + 1));
        index = index + 1;
    }
    words
}

/// Byte strings, as they are shown.
pub open spec fn shown(words: Seq<Seq<u8>>) -> Seq<Seq<char>> {
    words.map_values(|word: Seq<u8>| lossy_text(word))
}

/// Byte strings, as they are shown.
pub fn show_words(words: &Vec<Vec<u8>>) -> (texts_shown: Vec<String>)
    ensures
        texts(texts_shown@) == shown(byte_strings(words@)),
{
    let mut texts_shown: Vec<String> = Vec::new();
    let ghost expected = shown(byte_strings(words@));
    let mut index: usize = 0;
    while index < words.len()
        invariant
            index <= words@.len(),
            expected == shown(byte_strings(words@)),
            texts(texts_shown@) == expected.take(index as int),
        decreases words@.len() - index,
    {
        let ghost known = texts_shown@;
        let word = lossy(words[index].as_slice());
        assert(byte_strings(words@)[index as int] == words@[index as int]@);
        texts_shown.push(word);
        assert(texts(texts_shown@) =~= texts(known).push(word@));
        assert(expected.take(index + 1) =~= expected.take(index as int).push(
            expected[index as int],
        ));
        index = index + 1;
    }
    assert(expected.take(index as int) =~= expected);
    texts_shown
}

/// Whether `invocation` is how the build of `plan` is invoked.
pub open spec fn invokes(
    invocation: BuildInvocation,
    selection: SelectionView,
    plan: BuildPlan,
) -> bool {
    &&& invocation.strategy == plan.strategy
    &&& invocation.stage == plan.stage
    &&& texts(invocation.cargo_arguments@) == shown(
        build_words(selection, plan.target_directory@, texts(plan.cargo_config_overrides@)),
    )
    &&& texts(invocation.cargo_config_overrides@) == texts(plan.cargo_config_overrides@)
    &&& invocation.target_directory@ == plan.target_directory@
    &&& match plan.interposition {
        Some(interposed) => invocation.interposition is Some && records_plan(
            invocation.interposition->0,
            interposed,
        ),
        None => invocation.interposition is None,
    }
}

/// How the build of `plan` is invoked.
pub fn planned_invocation(selection: &TargetSelection, plan: &BuildPlan) -> (invocation:
    BuildInvocation)
    ensures
        invokes(invocation, selection@, *plan),
{
    let words = build_arguments(selection, plan);
    let interposition = match &plan.interposition {
        Some(interposed) => Some(interposed.record()),
        None => None,
    };
    BuildInvocation {
        strategy: plan.strategy,
        stage: plan.stage,
        cargo_arguments: show_words(&words),
        cargo_config_overrides: copy_texts(&plan.cargo_config_overrides),
        target_directory: plan.target_directory.clone(),
        interposition,
    }
}

/// One message of a Cargo build.
#[derive(Debug)]
pub enum BuildMessage {
    Artifact {
        package_id: String,
        target_name: String,
        binary: bool,
        executable: Option<Vec<u8>>,
    },
    Compiler(String),
    ScriptExecuted(String),
    Finished(bool),
    Line(String),
    Other,
    /// The stream could not be read.
    Broken(String),
}

/// One message of a Cargo build, as sequences.
pub enum BuildMessageView {
    Artifact {
        package_id: Seq<char>,
        target_name: Seq<char>,
        binary: bool,
        executable: Option<Seq<u8>>,
    },
    Compiler(Seq<char>),
    ScriptExecuted(Seq<char>),
    Finished(bool),
    Line(Seq<char>),
    Other,
    Broken(Seq<char>),
}

impl View for BuildMessage {
    type V = BuildMessageView;

    open spec fn view(&self) -> BuildMessageView {
        match *self {
            BuildMessage::Artifact { package_id, target_name, binary, executable } => {
                BuildMessageView::Artifact {
                    package_id: package_id@,
                    target_name: target_name@,
                    binary,
                    executable: optional_bytes(executable),
                }
            },
            BuildMessage::Compiler(text) => BuildMessageView::Compiler(text@),
            BuildMessage::ScriptExecuted(id) => BuildMessageView::ScriptExecuted(id@),
            BuildMessage::Finished(success) => BuildMessageView::Finished(success),
            BuildMessage::Line(line) => BuildMessageView::Line(line@),
            BuildMessage::Other => BuildMessageView::Other,
            BuildMessage::Broken(error) => BuildMessageView::Broken(error@),
        }
    }
}

/// The message that the parser of Cargo's message stream reads from one line of it; nothing where
/// the line is empty.
pub uninterp spec fn message_of(line: Seq<u8>) -> Option<BuildMessageView>;

/// Reads one line of Cargo's message stream with `cargo_metadata::Message::parse_stream`. The
/// contract claims that the message is a function of the line. The parser has no limit on how
/// deeply the values of a line nest: reading a line takes stack space in proportion to its depth.
#[verifier::external_body]
pub(crate) fn parse_message(line: &[u8]) -> (message: Option<BuildMessage>)
    ensures
        match message {
            Some(found) => message_of(line@) == Some(found@),
            None => message_of(line@) is None,
        },
{
    Some(match cargo_metadata::Message::parse_stream(line).next()? {
        Ok(cargo_metadata::Message::CompilerArtifact(found)) => BuildMessage::Artifact {
            package_id: found.package_id.repr,
            binary: found.target.is_bin(),
            target_name: found.target.name,
            executable: found.executable.map(|path| path.into_string().into_bytes()),
        },
        Ok(cargo_metadata::Message::CompilerMessage(m)) => BuildMessage::Compiler(m.to_string()),
        Ok(cargo_metadata::Message::BuildScriptExecuted(script)) =>
            BuildMessage::ScriptExecuted(script.package_id.repr),
        Ok(cargo_metadata::Message::BuildFinished(end)) => BuildMessage::Finished(end.success),
        Ok(cargo_metadata::Message::TextLine(text)) => BuildMessage::Line(text),
        Ok(_) => BuildMessage::Other,
        Err(error) => BuildMessage::Broken(error.to_string()),
    })
}

/// What the messages of a build have said so far.
#[derive(Debug)]
pub struct BuildProgress {
    pub diagnostics: BoundedDiagnostics,
    pub executables: Vec<Vec<u8>>,
    pub stream_error: Option<String>,
}

/// What the messages of a build have said so far, as sequences.
#[verifier::ext_equal]
pub struct ProgressView {
    pub diagnostics: DiagnosticsView,
    pub executables: Seq<Seq<u8>>,
    pub stream_error: Option<Seq<char>>,
}

impl View for BuildProgress {
    type V = ProgressView;

    open spec fn view(&self) -> ProgressView {
        ProgressView {
            diagnostics: self.diagnostics@,
            executables: byte_strings(self.executables@),
            stream_error: optional_text(self.stream_error),
        }
    }
}

/// Progress after one more diagnostic.
pub open spec fn reported(progress: ProgressView, value: Seq<char>) -> ProgressView {
    ProgressView { diagnostics: pushed(progress.diagnostics, value), ..progress }
}

/// Progress after one more message.
pub open spec fn noted(
    progress: ProgressView,
    selection: SelectionView,
    message: BuildMessageView,
) -> ProgressView {
    match message {
        BuildMessageView::Artifact { package_id, target_name, binary, executable } => {
            if package_id == selection.package_id && target_name == selection.binary_name && binary
                && executable is Some {
                ProgressView {
                    executables: progress.executables.push(executable->0),
                    ..progress
                }
            } else {
                progress
            }
        },
        BuildMessageView::Compiler(text) => reported(progress, text),
        BuildMessageView::ScriptExecuted(id) => reported(
            progress,
            "build-script-executed: "@ + id,
        ),
        BuildMessageView::Finished(success) => reported(
            progress,
            "build-finished: success="@ + if success {
                "true"@
            } else {
                "false"@
            },
        ),
        BuildMessageView::Line(line) => reported(progress, line),
        BuildMessageView::Other => progress,
        BuildMessageView::Broken(error) => ProgressView { stream_error: Some(error), ..progress },
    }
}

impl BuildProgress {
    pub fn new() -> (progress: BuildProgress)
        ensures
            progress@ == (ProgressView {
                diagnostics: no_diagnostics(),
                executables: Seq::empty(),
                stream_error: None,
            }),
    {
        let progress = BuildProgress {
            diagnostics: BoundedDiagnostics::new(),
            executables: Vec::new(),
            stream_error: None,
        };
        assert(progress@.executables =~= Seq::<Seq<u8>>::empty());
        progress
    }

    /// Takes one message, and says whether the stream goes on.
    pub fn note(&mut self, selection: &TargetSelection, message: BuildMessage) -> (more: bool)
        ensures
            final(self)@ == noted(old(self)@, selection@, message@),
            more == !(message is Broken),
    {
        match message {
            BuildMessage::Artifact { package_id, target_name, binary, executable } => {
                if same_text(package_id.as_str(), selection.package_id.as_str()) && same_text(
                    target_name.as_str(),
                    selection.binary_name.as_str(),
                ) && binary {
                    if let Some(path) = executable {
                        self.executables.push(path);
                        assert(byte_strings(self.executables@) =~= byte_strings(
                            old(self).executables@,
                        ).push(path@));
                    }
                }
                true
            },
            BuildMessage::Compiler(text) => {
                self.diagnostics.push(text.as_str());
                true
            },
            BuildMessage::ScriptExecuted(id) => {
                self.diagnostics.push(text2("build-script-executed: ", id.as_str()).as_str());
                true
            },
            BuildMessage::Finished(success) => {
                let label: &str = if success {
                    "true"
                } else {
                    "false"
                };
                self.diagnostics.push(text2("build-finished: success=", label).as_str());
                true
            },
            BuildMessage::Line(line) => {
                self.diagnostics.push(line.as_str());
                true
            },
            BuildMessage::Other => true,
            BuildMessage::Broken(error) => {
                self.stream_error = Some(error);
                false
            },
        }
    }

    /// Takes one line of the message stream, and says whether the stream goes on.
    pub fn note_line(&mut self, selection: &TargetSelection, line: &[u8]) -> (more: bool)
        ensures
            match message_of(line@) {
                Some(message) => final(self)@ == noted(old(self)@, selection@, message) && more
                    == !(message is Broken),
                None => final(self)@ == old(self)@ && !more,
            },
    {
        match parse_message(line) {
            Some(message) => self.note(selection, message),
            None => false,
        }
    }
}

/// How a Cargo process ended.
#[derive(Debug)]
pub struct BuildEnd {
    /// Whether it succeeded, or why it could not be waited for.
    pub wait: Result<bool, String>,
    /// What it wrote on its standard error; nothing where the reader was lost.
    pub stderr: Option<BoundedDiagnostics>,
}

/// The diagnostics of a build once its standard error is known.
pub open spec fn all_diagnostics(
    diagnostics: DiagnosticsView,
    stderr: DiagnosticsView,
) -> DiagnosticsView {
    let both = pushed(diagnostics, stderr.text);
    DiagnosticsView { text: both.text, truncated: both.truncated || stderr.truncated }
}

/// A message with the diagnostics that go with it.
pub struct Complaint {
    pub message: Seq<char>,
    pub diagnostics: DiagnosticsView,
}

/// The one executable of a build that ended, or what is wrong with it.
pub open spec fn end_outcome(
    progress: ProgressView,
    selection: SelectionView,
    strategy: Strategy,
    end: BuildEnd,
) -> Result<(Seq<u8>, DiagnosticsView), Complaint> {
    match end.wait {
        Err(error) => Err(
            Complaint {
                message: "Cargo "@ + identity_label(strategy) + " wait failed: "@ + error@,
                diagnostics: no_diagnostics(),
            },
        ),
        Ok(success) => match end.stderr {
            None => Err(
                Complaint {
                    message: "Cargo stderr reader terminated unexpectedly."@,
                    diagnostics: no_diagnostics(),
                },
            ),
            Some(stderr) => {
                let diagnostics = all_diagnostics(progress.diagnostics, stderr@);
                if progress.stream_error is Some {
                    Err(
                        Complaint {
                            message: "Cargo JSON message stream failed: "@
                                + progress.stream_error->0,
                            diagnostics,
                        },
                    )
                } else if !success {
                    Err(
                        Complaint {
                            message: "Cargo build failed for "@ + identity_label(strategy)
                                + "; see bounded diagnostics."@,
                            diagnostics,
                        },
                    )
                } else if progress.executables.len() != 1 {
                    Err(
                        Complaint {
                            message: "Cargo did not emit exactly one executable for "@
                                + selection.package_name + "/"@ + selection.binary_name + "."@,
                            diagnostics,
                        },
                    )
                } else {
                    Ok((progress.executables[0], diagnostics))
                }
            },
        },
    }
}

/// Whether a failure says what a complaint says.
pub open spec fn complains(failure: BuildFailure, complaint: Complaint) -> bool {
    &&& failure.message@ == complaint.message
    &&& failure.bounded_diagnostics@ == complaint.diagnostics.text
    &&& failure.diagnostics_truncated == complaint.diagnostics.truncated
}

impl BuildFailure {
    /// A failure with the diagnostics gathered so far.
    pub fn with_diagnostics(
        invocation: BuildInvocation,
        reason: &'static str,
        message: String,
        diagnostics: BoundedDiagnostics,
    ) -> (failure: BuildFailure)
        ensures
            failure.invocation == invocation,
            failure.reason@ == reason@,
            failure.message@ == message@,
            failure.bounded_diagnostics@ == diagnostics@.text,
            failure.diagnostics_truncated == diagnostics@.truncated,
    {
        BuildFailure {
            invocation,
            reason,
            message,
            bounded_diagnostics: diagnostics.text,
            diagnostics_truncated: diagnostics.truncated,
        }
    }

    /// A failure before any diagnostics.
    pub fn new(invocation: BuildInvocation, message: String) -> (failure: BuildFailure)
        ensures
            failure.invocation == invocation,
            failure.reason@ == BUILD_FAILED_REASON@,
            failure.message@ == message@,
            failure.bounded_diagnostics@ == Seq::<char>::empty(),
            !failure.diagnostics_truncated,
    {
        BuildFailure::with_diagnostics(
            invocation,
            BUILD_FAILED_REASON,
            message,
            BoundedDiagnostics::new(),
        )
    }
}

/// The reason of a failed Cargo process: that of the shim's own refusal, where it made one.
pub open spec fn process_failure_reason(
    evidence: Option<Result<CaptureAggregate, CaptureFailure>>,
) -> Seq<char> {
    match evidence {
        Some(Err(failure)) => if failure.reason@ == INPUT_CONFLICT_REASON@ || failure.reason@
            == INPUT_AMBIGUITY_REASON@ || failure.reason@ == PROTOCOL_FAILURE_REASON@ {
            failure.reason@
        } else {
            BUILD_FAILED_REASON@
        },
        _ => BUILD_FAILED_REASON@,
    }
}

fn failure_reason(evidence: &Option<Result<CaptureAggregate, CaptureFailure>>) -> (reason:
    &'static str)
    ensures
        reason@ == process_failure_reason(*evidence),
{
    match evidence {
        Some(Err(failure)) => if same_text(failure.reason, INPUT_CONFLICT_REASON) || same_text(
            failure.reason,
            INPUT_AMBIGUITY_REASON,
        ) || same_text(failure.reason, PROTOCOL_FAILURE_REASON) {
            failure.reason
        } else {
            BUILD_FAILED_REASON
        },
        _ => BUILD_FAILED_REASON,
    }
}

/// A build whose process has ended well.
#[derive(Debug)]
pub struct EndedBuild {
    pub invocation: BuildInvocation,
    pub executable: Vec<u8>,
    pub diagnostics: BoundedDiagnostics,
}

/// Decides what the end of a Cargo process means.
pub fn end_build(
    invocation: BuildInvocation,
    progress: BuildProgress,
    selection: &TargetSelection,
    end: BuildEnd,
    evidence: &Option<Result<CaptureAggregate, CaptureFailure>>,
) -> (ended: Result<EndedBuild, BuildFailure>)
    ensures
        match ended {
            Ok(found) => {
                &&& end_outcome(progress@, selection@, invocation.strategy, end) == Ok::<
                    (Seq<u8>, DiagnosticsView),
                    Complaint,
                >((found.executable@, found.diagnostics@))
                &&& found.invocation == invocation
            },
            Err(failure) => {
                &&& end_outcome(progress@, selection@, invocation.strategy, end) is Err
                &&& complains(
                    failure,
                    end_outcome(progress@, selection@, invocation.strategy, end)->Err_0,
                )
                &&& failure.invocation == invocation
                &&& failure.reason@ == process_failure_reason(*evidence)
            },
        },
{
    let reason = failure_reason(evidence);
    let label = invocation.strategy.canonical_identity();
    let success: bool = match end.wait {
        Ok(success) => success,
        Err(error) => {
            let message = text4("Cargo ", label, " wait failed: ", error.as_str());
            return Err(
                BuildFailure::with_diagnostics(
                    invocation,
                    reason,
                    message,
                    BoundedDiagnostics::new(),
                ),
            );
        },
    };
    let stderr = match end.stderr {
        Some(stderr) => stderr,
        None => {
            return Err(
                BuildFailure::with_diagnostics(
                    invocation,
                    reason,
                    "Cargo stderr reader terminated unexpectedly.".to_owned(),
                    BoundedDiagnostics::new(),
                ),
            );
        },
    };
    let BuildProgress { diagnostics: messages, executables, stream_error } = progress;
    let mut executables = executables;
    let mut diagnostics = messages;
    diagnostics.push(stderr.text.as_str());
    if stderr.truncated {
        diagnostics.truncated = true;
    }
    if let Some(error) = stream_error {
        let message = text2("Cargo JSON message stream failed: ", error.as_str());
        return Err(BuildFailure::with_diagnostics(invocation, reason, message, diagnostics));
    }
    if !success {
        let message = text3("Cargo build failed for ", label, "; see bounded diagnostics.");
        return Err(BuildFailure::with_diagnostics(invocation, reason, message, diagnostics));
    }
    if executables.len() != 1 {
        let message = text5(
            "Cargo did not emit exactly one executable for ",
            selection.package_name.as_str(),
            "/",
            selection.binary_name.as_str(),
            ".",
        );
        return Err(BuildFailure::with_diagnostics(invocation, reason, message, diagnostics));
    }
    assert(byte_strings(executables@)[0] == executables@[0]@);
    Ok(EndedBuild { invocation, executable: executables.swap_remove(0), diagnostics })
}

/// What the file system says of the executable that Cargo named.
#[derive(Debug)]
pub struct ExecutableFacts {
    pub canonical: Result<Vec<u8>, String>,
    pub canonical_target: Result<Vec<u8>, String>,
    pub size_bytes: Result<u64, String>,
    pub sha256: Result<String, String>,
}

/// Why an executable is not accepted: a reason and a message.
pub open spec fn artifact_refusal(
    facts: ExecutableFacts,
    evidence: Option<Result<CaptureAggregate, CaptureFailure>>,
) -> Option<(Seq<char>, Seq<char>)> {
    match facts.canonical {
        Err(error) => Some(
            (
                BUILD_FAILED_REASON@,
                "Cargo executable could not be canonicalized: "@ + error@,
            ),
        ),
        Ok(executable) => match facts.canonical_target {
            Err(error) => Some(
                (
                    BUILD_FAILED_REASON@,
                    "Isolated target directory could not be canonicalized: "@ + error@,
                ),
            ),
            Ok(target) => if !lies_within(executable@, target@) {
                Some(
                    (
                        BUILD_FAILED_REASON@,
                        "Cargo emitted an executable outside the isolated target directory."@,
                    ),
                )
            } else {
                match facts.size_bytes {
                    Err(error) => Some(
                        (
                            BUILD_FAILED_REASON@,
                            "Cargo executable metadata could not be read: "@ + error@,
                        ),
                    ),
                    Ok(_) => match facts.sha256 {
                        Err(error) => Some((BUILD_FAILED_REASON@, error@)),
                        Ok(_) => match evidence {
                            Some(Err(failure)) => Some((failure.reason@, failure.message@)),
                            _ => None,
                        },
                    },
                }
            },
        },
    }
}

/// Accepts the executable of an ended build, with its compiler evidence where the build was
/// interposed.
pub fn accept_build(
    ended: EndedBuild,
    facts: ExecutableFacts,
    evidence: Option<Result<CaptureAggregate, CaptureFailure>>,
    build_duration_ms: u128,
) -> (build: Result<BuildRecord, BuildFailure>)
    ensures
        match build {
            Ok(record) => {
                &&& artifact_refusal(facts, evidence) is None
                &&& record.invocation == ended.invocation
                &&& facts.canonical == Ok::<Vec<u8>, String>(record.executable_path)
                &&& facts.sha256 == Ok::<String, String>(record.sha256)
                &&& facts.size_bytes == Ok::<u64, String>(record.size_bytes)
                &&& record.build_duration_ms == build_duration_ms
                &&& record.bounded_diagnostics@ == ended.diagnostics@.text
                &&& record.diagnostics_truncated == ended.diagnostics@.truncated
                &&& match evidence {
                    Some(Ok(aggregate)) => record.compiler_evidence == Some(aggregate),
                    _ => record.compiler_evidence is None,
                }
            },
            Err(failure) => {
                &&& artifact_refusal(facts, evidence) == Some(
                    (failure.reason@, failure.message@),
                )
                &&& failure.invocation == ended.invocation
                &&& failure.bounded_diagnostics@ == ended.diagnostics@.text
                &&& failure.diagnostics_truncated == ended.diagnostics@.truncated
            },
        },
{
    let EndedBuild { invocation, executable: _, diagnostics } = ended;
    let executable = match facts.canonical {
        Ok(path) => path,
        Err(error) => {
            let message = text2("Cargo executable could not be canonicalized: ", error.as_str());
            return Err(
                BuildFailure::with_diagnostics(
                    invocation,
                    BUILD_FAILED_REASON,
                    message,
                    diagnostics,
                ),
            );
        },
    };
    let target = match facts.canonical_target {
        Ok(path) => path,
        Err(error) => {
            let message = text2(
                "Isolated target directory could not be canonicalized: ",
                error.as_str(),
            );
            return Err(
                BuildFailure::with_diagnostics(
                    invocation,
                    BUILD_FAILED_REASON,
                    message,
                    diagnostics,
                ),
            );
        },
    };
    if !starts_with(executable.as_slice(), target.as_slice()) {
        return Err(
            BuildFailure::with_diagnostics(
                invocation,
                BUILD_FAILED_REASON,
                "Cargo emitted an executable outside the isolated target directory.".to_owned(),
                diagnostics,
            ),
        );
    }
    let size_bytes: u64 = match facts.size_bytes {
        Ok(size) => size,
        Err(error) => {
            let message = text2("Cargo executable metadata could not be read: ", error.as_str());
            return Err(
                BuildFailure::with_diagnostics(
                    invocation,
                    BUILD_FAILED_REASON,
                    message,
                    diagnostics,
                ),
            );
        },
    };
    let sha256 = match facts.sha256 {
        Ok(digest) => digest,
        Err(error) => {
            return Err(
                BuildFailure::with_diagnostics(
                    invocation,
                    BUILD_FAILED_REASON,
                    error,
                    diagnostics,
                ),
            );
        },
    };
    let compiler_evidence = match evidence {
        None => None,
        Some(Ok(aggregate)) => Some(aggregate),
        Some(Err(failure)) => {
            return Err(
                BuildFailure::with_diagnostics(
                    invocation,
                    failure.reason,
                    failure.message,
                    diagnostics,
                ),
            );
        },
    };
    Ok(
        BuildRecord {
            invocation,
            executable_path: executable,
            sha256,
            size_bytes,
            build_duration_ms,
            bounded_diagnostics: diagnostics.text,
            diagnostics_truncated: diagnostics.truncated,
            compiler_evidence,
        },
    )
}

/// Every accepted executable lies inside the isolated target directory of its build, and an
/// interposed build is only accepted with accepted evidence.
pub proof fn law_accepted_builds_stay_isolated(
    facts: ExecutableFacts,
    evidence: Option<Result<CaptureAggregate, CaptureFailure>>,
)
    requires
        artifact_refusal(facts, evidence) is None,
    ensures
        facts.canonical is Ok,
        facts.canonical_target is Ok,
        lies_within(facts.canonical->Ok_0@, facts.canonical_target->Ok_0@),
        evidence is Some ==> evidence->0 is Ok,
{
}

/// Diagnostics keep everything that fits: a value for which there is room is added whole, on a
/// line of its own, and nothing is marked as cut. Otherwise they are marked as cut, and what is
/// added is a front of the value.
pub proof fn law_diagnostics_keep_what_fits(diagnostics: DiagnosticsView, value: Seq<char>)
    requires
        value.len() > 0,
        byte_len(diagnostics.text) <= 65_536,
    ensures
        ({
            let after = pushed(diagnostics, value);
            let line = if diagnostics.text.len() == 0 {
                value
            } else {
                seq!['\n'] + value
            };
            &&& byte_len(diagnostics.text) + byte_len(line) <= 65_536 ==> after.text
                == diagnostics.text + line && after.truncated == diagnostics.truncated
            &&& byte_len(diagnostics.text) + byte_len(line) > 65_536 ==> after.truncated
                && after.text.is_prefix_of(diagnostics.text + line)
            &&& byte_len(after.text) <= 65_536
        }),
{
    law_diagnostics_stay_bounded(diagnostics, value);
    let room = diagnostic_room(diagnostics.text);
    let separator = if diagnostics.text.len() == 0 {
        Seq::<char>::empty()
    } else {
        seq!['\n']
    };
    let line = separator + value;
    lemma_encode_concat(separator, value);
    lemma_empty_bytes(Seq::empty());
    lemma_empty_bytes(value);
    lemma_empty_bytes(diagnostics.text);
    assert(vstd::utf8::is_ascii_chars(seq!['\n']));
    lemma_ascii_bytes(seq!['\n']);
    law_bounded_texts_are_the_longest_that_fit(value, room, value.len() as int);
    let kept = bounded_text(value, room);
    assert(value =~= kept + value.skip(kept.len() as int));
    if diagnostics.text.len() == 0 {
        assert(line =~= value);
    }
    assert(diagnostics.text + separator + value =~= diagnostics.text + line);
    assert((diagnostics.text + separator + kept).is_prefix_of(diagnostics.text + line));
    assert(diagnostics.text.is_prefix_of(diagnostics.text + line));
    if kept == value {
        assert(byte_len(line) <= 65_536 - byte_len(diagnostics.text));
    }
}

/// Whether target number `target` of package number `package` is a binary of a workspace member
/// with the names that were asked for, as far as any were.
pub open spec fn is_choice(
    workspace: WorkspaceView,
    package_name: Option<Seq<char>>,
    binary_name: Option<Seq<char>>,
    package: int,
    target: int,
) -> bool {
    &&& 0 <= package < workspace.packages.len()
    &&& 0 <= target < workspace.packages[package].targets.len()
    &&& workspace.members.contains(workspace.packages[package].id)
    &&& workspace.packages[package].targets[target].1
    &&& package_name matches Some(name) ==> workspace.packages[package].name == name
    &&& binary_name matches Some(name) ==> workspace.packages[package].targets[target].0 == name
}

/// What selecting that target gives.
pub open spec fn choice_at(workspace: WorkspaceView, package: int, target: int) -> SelectionView {
    SelectionView {
        package_id: workspace.packages[package].id,
        package_name: workspace.packages[package].name,
        binary_name: workspace.packages[package].targets[target].0,
        workspace_root: workspace.root,
    }
}

spec fn target_places(
    package: PackageView,
    binary: Option<Seq<char>>,
    place: int,
    count: int,
) -> Seq<(int, int)>
    decreases count,
{
    if count <= 0 {
        Seq::empty()
    } else {
        let earlier = target_places(package, binary, place, count - 1);
        let (name, is_binary) = package.targets[count - 1];
        if is_binary && is_requested(binary, name) {
            earlier.push((place, count - 1))
        } else {
            earlier
        }
    }
}

spec fn package_places(
    workspace: WorkspaceView,
    package: Option<Seq<char>>,
    binary: Option<Seq<char>>,
    count: int,
) -> Seq<(int, int)>
    decreases count,
{
    if count <= 0 {
        Seq::empty()
    } else {
        let earlier = package_places(workspace, package, binary, count - 1);
        let last = workspace.packages[count - 1];
        if workspace.members.contains(last.id) && is_requested(package, last.name) {
            earlier + target_places(last, binary, count - 1, last.targets.len() as int)
        } else {
            earlier
        }
    }
}

proof fn lemma_target_places(
    workspace: WorkspaceView,
    binary: Option<Seq<char>>,
    place: int,
    count: int,
)
    requires
        0 <= place < workspace.packages.len(),
        0 <= count <= workspace.packages[place].targets.len(),
    ensures
        ({
            let package = workspace.packages[place];
            let places = target_places(package, binary, place, count);
            let choices = target_choices(workspace.root, package, binary, count);
            &&& places.len() == choices.len()
            &&& forall|i: int|
                0 <= i < places.len() ==> {
                    &&& (#[trigger] places[i]).0 == place
                    &&& 0 <= places[i].1 < count
                    &&& package.targets[places[i].1].1
                    &&& is_requested(binary, package.targets[places[i].1].0)
                    &&& choices[i] == choice_at(workspace, place, places[i].1)
                }
            &&& forall|i: int, j: int|
                0 <= i < j < places.len() ==> (#[trigger] places[i]).1 < (#[trigger] places[j]).1
            &&& forall|target: int|
                0 <= target < count && (#[trigger] package.targets[target]).1 && is_requested(
                    binary,
                    package.targets[target].0,
                ) ==> places.contains((place, target))
        }),
    decreases count,
{
    if count > 0 {
        lemma_target_places(workspace, binary, place, count - 1);
        let package = workspace.packages[place];
        let earlier = target_places(package, binary, place, count - 1);
        let places = target_places(package, binary, place, count);
        let (name, is_binary) = package.targets[count - 1];
        assert forall|target: int|
            0 <= target < count && (#[trigger] package.targets[target]).1 && is_requested(
                binary,
                package.targets[target].0,
            ) implies places.contains((place, target)) by {
            if target < count - 1 {
                let i = choose|i: int| 0 <= i < earlier.len() && earlier[i] == (place, target);
                assert(places[i] == (place, target));
            } else {
                assert(places[earlier.len() as int] == (place, target));
            }
        }
    }
}

proof fn lemma_package_places(
    workspace: WorkspaceView,
    package: Option<Seq<char>>,
    binary: Option<Seq<char>>,
    count: int,
)
    requires
        0 <= count <= workspace.packages.len(),
    ensures
        ({
            let places = package_places(workspace, package, binary, count);
            let choices = package_choices(workspace, package, binary, count);
            &&& places.len() == choices.len()
            &&& forall|i: int|
                0 <= i < places.len() ==> {
                    &&& (#[trigger] places[i]).0 < count
                    &&& is_choice(workspace, package, binary, places[i].0, places[i].1)
                    &&& choices[i] == choice_at(workspace, places[i].0, places[i].1)
                }
            &&& forall|i: int, j: int|
                0 <= i < j < places.len() ==> (#[trigger] places[i]) != (#[trigger] places[j])
            &&& forall|p: int, t: int| #[trigger]
                is_choice(workspace, package, binary, p, t) && p < count ==> places.contains((p, t))
        }),
    decreases count,
{
    if count > 0 {
        lemma_package_places(workspace, package, binary, count - 1);
        let last = workspace.packages[count - 1];
        let total = last.targets.len() as int;
        lemma_target_places(workspace, binary, count - 1, total);
        let earlier = package_places(workspace, package, binary, count - 1);
        let added = target_places(last, binary, count - 1, total);
        let places = package_places(workspace, package, binary, count);
        assert forall|p: int, t: int| #[trigger]
            is_choice(workspace, package, binary, p, t) && p < count implies places.contains(
            (p, t),
        ) by {
            if p < count - 1 {
                let i = choose|i: int| 0 <= i < earlier.len() && earlier[i] == (p, t);
                assert(places[i] == (p, t));
            } else {
                assert(last.targets[t].1);
                let i = choose|i: int| 0 <= i < added.len() && added[i] == (p, t);
                assert(places[earlier.len() + i] == (p, t));
            }
        }
        assert forall|i: int, j: int| 0 <= i < j < places.len() implies (#[trigger] places[i])
            != (#[trigger] places[j]) by {
            if j < earlier.len() {
                assert(places[i] == earlier[i] && places[j] == earlier[j]);
            } else if i >= earlier.len() && places.len() > earlier.len() {
                assert(places[i] == added[i - earlier.len()]);
                assert(places[j] == added[j - earlier.len()]);
            } else {
                assert(places[i] == earlier[i]);
                assert(places[j] == added[j - earlier.len()]);
                assert(earlier[i].0 < count - 1);
                assert(added[j - earlier.len()].0 == count - 1);
            }
        }
    }
}

/// A selection succeeds exactly where one binary of the workspace members, and only one, has the
/// package and binary names that were asked for, and gives that binary.
pub proof fn law_selections_are_the_only_match(
    workspace: WorkspaceView,
    package: Option<Seq<char>>,
    binary: Option<Seq<char>>,
    place: int,
    target: int,
)
    requires
        is_choice(workspace, package, binary, place, target),
    ensures
        selection_outcome(workspace, package, binary) is Ok <==> forall|p: int, t: int| #[trigger]
            is_choice(workspace, package, binary, p, t) ==> p == place && t == target,
        selection_outcome(workspace, package, binary) matches Ok(found) ==> found == choice_at(
            workspace,
            place,
            target,
        ),
{
    let count = workspace.packages.len() as int;
    lemma_package_places(workspace, package, binary, count);
    let places = package_places(workspace, package, binary, count);
    assert(places.contains((place, target)));
    let i = choose|i: int| 0 <= i < places.len() && places[i] == (place, target);
    if places.len() == 1 {
        assert forall|p: int, t: int| #[trigger]
            is_choice(workspace, package, binary, p, t) implies p == place && t == target by {
            assert(places.contains((p, t)));
            let j = choose|j: int| 0 <= j < places.len() && places[j] == (p, t);
            assert(j == i);
        }
    } else {
        let j = if i == 0 {
            1int
        } else {
            0int
        };
        assert(places[j] != places[i]);
        assert(is_choice(workspace, package, binary, places[j].0, places[j].1));
    }
}

/// Nothing is selected where no binary of a workspace member was asked for.
pub proof fn law_nothing_else_is_selected(
    workspace: WorkspaceView,
    package: Option<Seq<char>>,
    binary: Option<Seq<char>>,
)
    requires
        forall|p: int, t: int| !#[trigger] is_choice(workspace, package, binary, p, t),
    ensures
        selection_outcome(workspace, package, binary) is Err,
{
    let count = workspace.packages.len() as int;
    lemma_package_places(workspace, package, binary, count);
    let places = package_places(workspace, package, binary, count);
    if places.len() > 0 {
        assert(is_choice(workspace, package, binary, places[0].0, places[0].1));
    }
}

/// Whether the words at `place` and behind it make Cargo apply an override.
pub open spec fn configures(words: Seq<Seq<u8>>, place: int, text: Seq<char>) -> bool {
    &&& words[place] == encode_utf8("--config"@)
    &&& words[place + 1] == encode_utf8(text)
}

proof fn lemma_override_words(overrides: Seq<Seq<char>>, count: int)
    requires
        0 <= count <= overrides.len(),
    ensures
        override_words(overrides, count).len() == 2 * count,
        forall|i: int|
            0 <= i < count ==> configures(
                override_words(overrides, count),
                2 * i,
                #[trigger] overrides[i],
            ),
    decreases count,
{
    if count > 0 {
        lemma_override_words(overrides, count - 1);
        let earlier = override_words(overrides, count - 1);
        let now = override_words(overrides, count);
        assert forall|i: int| 0 <= i < count implies configures(
            now,
            2 * i,
            #[trigger] overrides[i],
        ) by {
            if i < count - 1 {
                assert(configures(earlier, 2 * i, overrides[i]));
                assert(now[2 * i] == earlier[2 * i]);
                assert(now[2 * i + 1] == earlier[2 * i + 1]);
            }
        }
    }
}

/// A build is a locked release build of the selected binary for the supported host, in its own
/// target directory, with every override of the plan, one `--config` each, and nothing else.
pub proof fn law_builds_apply_every_override(
    selection: SelectionView,
    target_directory: Seq<u8>,
    overrides: Seq<Seq<char>>,
)
    ensures
        ({
            let words = build_words(selection, target_directory, overrides);
            &&& words.len() == 12 + 2 * overrides.len()
            &&& words[0] == encode_utf8("build"@)
            &&& words[1] == encode_utf8("--release"@)
            &&& words[2] == encode_utf8("--locked"@)
            &&& words[3] == encode_utf8("--target"@)
            &&& words[4] == encode_utf8("x86_64-unknown-linux-gnu"@)
            &&& words[5] == encode_utf8("--message-format=json"@)
            &&& words[6] == encode_utf8("--package"@)
            &&& words[7] == encode_utf8(selection.package_name)
            &&& words[8] == encode_utf8("--bin"@)
            &&& words[9] == encode_utf8(selection.binary_name)
            &&& words[10] == encode_utf8("--target-dir"@)
            &&& words[11] == target_directory
            &&& forall|i: int|
                0 <= i < overrides.len() ==> configures(words, 12 + 2 * i, #[trigger] overrides[i])
        }),
{
    lemma_override_words(overrides, overrides.len() as int);
    let words = build_words(selection, target_directory, overrides);
    let added = override_words(overrides, overrides.len() as int);
    assert forall|i: int| 0 <= i < overrides.len() implies configures(
        words,
        12 + 2 * i,
        #[trigger] overrides[i],
    ) by {
        assert(configures(added, 2 * i, overrides[i]));
        assert(words[12 + 2 * i] == added[2 * i]);
        assert(words[12 + 2 * i + 1] == added[2 * i + 1]);
    }
}

/// Of Cargo's messages only the executable of the selected binary counts: the artifact of that
/// package, of that target, of kind binary. No other message adds an executable, and only a broken
/// stream leaves an error.
pub proof fn law_only_the_selected_executable_counts(
    progress: ProgressView,
    selection: SelectionView,
    message: BuildMessageView,
)
    ensures
        ({
            let after = noted(progress, selection, message);
            let counts = message matches BuildMessageView::Artifact {
                package_id,
                target_name,
                binary,
                executable,
            } && package_id == selection.package_id && target_name == selection.binary_name && binary
                && executable is Some;
            &&& after.executables == if counts {
                progress.executables.push(message->executable->0)
            } else {
                progress.executables
            }
            &&& after.stream_error == if message is Broken {
                Some(message->Broken_0)
            } else {
                progress.stream_error
            }
        }),
{
}

/// An ended build is accepted exactly where Cargo succeeded, both its streams were read to their
/// end, and it named one executable; and it is that executable.
pub proof fn law_builds_end_with_one_executable(
    progress: ProgressView,
    selection: SelectionView,
    strategy: Strategy,
    end: BuildEnd,
)
    ensures
        end_outcome(progress, selection, strategy, end) is Ok <==> {
            &&& end.wait == Ok::<bool, String>(true)
            &&& end.stderr is Some
            &&& progress.stream_error is None
            &&& progress.executables.len() == 1
        },
        end_outcome(progress, selection, strategy, end) matches Ok(found) ==> found.0
            == progress.executables[0],
{
}

/// An executable is accepted exactly where it lies inside the isolated target directory, could be
/// measured and hashed, and the evidence of its compilation, if there is any, was accepted.
pub proof fn law_executables_are_accepted_exactly(
    facts: ExecutableFacts,
    evidence: Option<Result<CaptureAggregate, CaptureFailure>>,
)
    ensures
        artifact_refusal(facts, evidence) is None <==> {
            &&& facts.canonical is Ok
            &&& facts.canonical_target is Ok
            &&& parts(facts.canonical_target->Ok_0@).is_prefix_of(parts(facts.canonical->Ok_0@))
            &&& facts.size_bytes is Ok
            &&& facts.sha256 is Ok
            &&& evidence matches Some(found) ==> found is Ok
        },
{
}

/// A discovered lockfile is accepted exactly where it is the one at the workspace root.
pub proof fn law_lockfiles_belong_to_their_workspace(
    workspace_lockfile: Option<Vec<u8>>,
    lockfile: Seq<u8>,
)
    ensures
        lockfile_refusal(workspace_lockfile, lockfile) is None <==> workspace_lockfile is Some
            && parts(workspace_lockfile->0@) == parts(lockfile),
{
}

} // verus!
