//! Observed compiler-input parity.
//!
//! The inputs that the compiler received are compared after every stage has executed. The
//! normalization allowlist is closed: only the stage target root and the documented PGO phase
//! controls may differ. Cargo artifact identity fields are byte-identical across phases and are
//! therefore compared, not normalized.
//!
//! Every unknown difference rejects PGO, and an incomplete comparison can never match.

use vstd::prelude::*;
use vstd::slice::slice_to_vec;
use vstd::string::*;
use vstd::utf8::*;

use crate::capture::CaptureAggregate;
use crate::classify::{at_most, optional_label, InvocationClass};
use crate::hash::{frame, framed_digest, sha256_text};
use crate::interposition::{stage_label, InterpositionRecord, ShimStage, NORMALIZATION_VERSION};
use crate::order::{
    arrange, byte_order, lemma_byte_order_exists, lemma_picked_multiset, lemma_reaches, order_keys,
    picked, sorted_bytes,
};
use crate::paths::{parts, same_path};
use crate::shim::CaptureRecord;
use crate::text::{
    byte_strings, contains_text, copy_text, join_texts, joined_texts, optional_text, or_empty,
    same_optional_text, same_text, same_texts, text3, text_or_empty, texts,
};

verus! {

/// Stable reason of an observed compiler-input difference.
pub const MISMATCH_REASON: &'static str = "compiler_input_mismatch";

/// Bounded number of persisted difference entries. Truncation is explicit and can never remove
/// the stable reason.
pub const DIFFERENCE_LIMIT: usize = 64;

pub const EVIDENCE_UNAVAILABLE: &'static str = "evidence_unavailable";

pub const TOOL_CHANGED: &'static str = "tool_changed";

pub const AMBIGUOUS_CRATE_IDENTITY: &'static str = "ambiguous_crate_identity";

pub const CRATE_COUNT: &'static str = "crate_count";

pub const CRATE_ADDED: &'static str = "crate_added";

pub const CRATE_MISSING: &'static str = "crate_missing";

pub const ARTIFACT_METADATA_CHANGED: &'static str = "artifact_metadata_changed";

pub const ARTIFACT_EXTRA_FILENAME_CHANGED: &'static str = "artifact_extra_filename_changed";

pub const CRATE_KIND_CHANGED: &'static str = "crate_kind_changed";

pub const ARGUMENT_COUNT: &'static str = "argument_count";

pub const ARGUMENT_ADDED: &'static str = "argument_added";

pub const ARGUMENT_REMOVED: &'static str = "argument_removed";

pub const ARGUMENT_ORDER: &'static str = "argument_order";

/// Bounded difference classes. Every rejection maps to exactly one of them.
pub open spec fn difference_class_set() -> Seq<Seq<char>> {
    seq![
        EVIDENCE_UNAVAILABLE@,
        TOOL_CHANGED@,
        AMBIGUOUS_CRATE_IDENTITY@,
        CRATE_COUNT@,
        CRATE_ADDED@,
        CRATE_MISSING@,
        ARTIFACT_METADATA_CHANGED@,
        ARTIFACT_EXTRA_FILENAME_CHANGED@,
        CRATE_KIND_CHANGED@,
        ARGUMENT_COUNT@,
        ARGUMENT_ADDED@,
        ARGUMENT_REMOVED@,
        ARGUMENT_ORDER@,
    ]
}

/// Bounded difference classes. Every rejection maps to exactly one of them.
pub fn difference_class_labels() -> (classes: Vec<&'static str>)
    ensures
        classes@.map_values(|class: &'static str| class@) == difference_class_set(),
{
    let mut classes: Vec<&'static str> = Vec::new();
    classes.push(EVIDENCE_UNAVAILABLE);
    classes.push(TOOL_CHANGED);
    classes.push(AMBIGUOUS_CRATE_IDENTITY);
    classes.push(CRATE_COUNT);
    classes.push(CRATE_ADDED);
    classes.push(CRATE_MISSING);
    classes.push(ARTIFACT_METADATA_CHANGED);
    classes.push(ARTIFACT_EXTRA_FILENAME_CHANGED);
    classes.push(CRATE_KIND_CHANGED);
    classes.push(ARGUMENT_COUNT);
    classes.push(ARGUMENT_ADDED);
    classes.push(ARGUMENT_REMOVED);
    classes.push(ARGUMENT_ORDER);
    assert(classes@.map_values(|class: &'static str| class@) =~= difference_class_set());
    classes
}

/// Which comparison produced a parity record.
#[derive(Clone, Copy, Debug, PartialEq, Eq, Structural)]
pub enum ParityScope {
    /// Reference against generation and against optimization.
    PgoTraining,
    /// The accepted optimized build against its confirmation rebuild.
    PgoConfirmation,
}

/// One target compilation, reduced to its comparable observed inputs.
#[derive(Debug)]
pub struct UnitInputs {
    pub crate_name: String,
    pub metadata: Option<String>,
    pub crate_types: Vec<String>,
    pub extra_filename: Option<String>,
    pub argument_digests: Vec<String>,
    pub normalized_digest: String,
}

/// One target compilation, as sequences.
#[verifier::ext_equal]
pub struct UnitView {
    pub crate_name: Seq<char>,
    pub metadata: Option<Seq<char>>,
    pub crate_types: Seq<Seq<char>>,
    pub extra_filename: Option<Seq<char>>,
    pub argument_digests: Seq<Seq<char>>,
    pub normalized_digest: Seq<char>,
}

impl View for UnitInputs {
    type V = UnitView;

    open spec fn view(&self) -> UnitView {
        UnitView {
            crate_name: self.crate_name@,
            metadata: optional_text(self.metadata),
            crate_types: texts(self.crate_types@),
            extra_filename: optional_text(self.extra_filename),
            argument_digests: texts(self.argument_digests@),
            normalized_digest: self.normalized_digest@,
        }
    }
}

impl Clone for UnitInputs {
    fn clone(&self) -> (copy: UnitInputs)
        ensures
            copy@ == self@,
    {
        UnitInputs {
            crate_name: self.crate_name.clone(),
            metadata: copy_text(&self.metadata),
            crate_types: self.crate_types.clone(),
            extra_filename: copy_text(&self.extra_filename),
            argument_digests: self.argument_digests.clone(),
            normalized_digest: self.normalized_digest.clone(),
        }
    }
}

/// The views of target compilations.
pub open spec fn unit_views(units: Seq<UnitInputs>) -> Seq<UnitView> {
    units.map_values(|unit: UnitInputs| unit@)
}

/// Logical crate identity. `-Cmetadata` is Cargo's own per-unit hash, so it separates a
/// package's library from its binary and two semver-distinct versions of one crate, while
/// staying stable across stages.
pub open spec fn identity_of(unit: UnitView) -> (Seq<char>, Seq<char>) {
    (unit.crate_name, text_or_empty(unit.metadata))
}

impl UnitInputs {
    /// Whether two units have the same logical crate identity.
    pub fn same_identity(&self, other: &UnitInputs) -> (same: bool)
        ensures
            same == (identity_of(self@) == identity_of(other@)),
    {
        same_text(self.crate_name.as_str(), other.crate_name.as_str()) && same_text(
            or_empty(&self.metadata).as_str(),
            or_empty(&other.metadata).as_str(),
        )
    }
}

/// One executed stage's observed compiler inputs.
#[derive(Debug)]
pub struct StageInputs {
    pub stage: ShimStage,
    pub real_rustc: Vec<u8>,
    pub real_rustc_version: String,
    pub shim_sha256: String,
    pub capture_digest: String,
    pub record_count: usize,
    pub units: Vec<UnitInputs>,
}

/// One stage's observed inputs, as sequences.
#[verifier::ext_equal]
pub struct StageView {
    pub stage: ShimStage,
    pub real_rustc: Seq<u8>,
    pub real_rustc_version: Seq<char>,
    pub shim_sha256: Seq<char>,
    pub capture_digest: Seq<char>,
    pub record_count: int,
    pub units: Seq<UnitView>,
}

impl View for StageInputs {
    type V = StageView;

    open spec fn view(&self) -> StageView {
        StageView {
            stage: self.stage,
            real_rustc: self.real_rustc@,
            real_rustc_version: self.real_rustc_version@,
            shim_sha256: self.shim_sha256@,
            capture_digest: self.capture_digest@,
            record_count: self.record_count as int,
            units: unit_views(self.units@),
        }
    }
}

/// Bounded per-stage summary.
#[derive(Debug)]
pub struct StageSummary {
    pub stage: ShimStage,
    pub record_count: usize,
    pub target_compilations: usize,
    pub capture_digest: String,
    /// Digest of the normalized target-compilation set. Two runs of the same workspace with
    /// fresh stage roots produce the same value.
    pub normalized_aggregate_digest: String,
}

/// A stage summary, as sequences.
pub struct StageSummaryView {
    pub stage: ShimStage,
    pub record_count: int,
    pub target_compilations: int,
    pub capture_digest: Seq<char>,
    pub normalized_aggregate_digest: Seq<char>,
}

impl View for StageSummary {
    type V = StageSummaryView;

    open spec fn view(&self) -> StageSummaryView {
        StageSummaryView {
            stage: self.stage,
            record_count: self.record_count as int,
            target_compilations: self.target_compilations as int,
            capture_digest: self.capture_digest@,
            normalized_aggregate_digest: self.normalized_aggregate_digest@,
        }
    }
}

#[derive(Debug)]
pub struct Difference {
    pub class: &'static str,
    pub comparison: String,
    pub crate_name: Option<String>,
}

/// One difference, as sequences.
#[verifier::ext_equal]
pub struct DifferenceView {
    pub class: Seq<char>,
    pub comparison: Seq<char>,
    pub crate_name: Option<Seq<char>>,
}

impl View for Difference {
    type V = DifferenceView;

    open spec fn view(&self) -> DifferenceView {
        DifferenceView {
            class: self.class@,
            comparison: self.comparison@,
            crate_name: optional_text(self.crate_name),
        }
    }
}

/// The views of differences.
pub open spec fn difference_views(differences: Seq<Difference>) -> Seq<DifferenceView> {
    differences.map_values(|difference: Difference| difference@)
}

/// The views of stage summaries.
pub open spec fn summary_views(summaries: Seq<StageSummary>) -> Seq<StageSummaryView> {
    summaries.map_values(|summary: StageSummary| summary@)
}

/// The observed compiler parity object.
#[derive(Debug)]
pub struct CompilerParityRecord {
    pub normalization: u32,
    pub scope: ParityScope,
    pub allowlist: Vec<&'static str>,
    pub stages: Vec<StageSummary>,
    pub matched: bool,
    pub reason: Option<&'static str>,
    pub differences: Vec<Difference>,
    pub differences_truncated: bool,
}

/// A parity object, as sequences.
pub struct ParityView {
    pub normalization: u32,
    pub scope: ParityScope,
    pub allowlist: Seq<Seq<char>>,
    pub stages: Seq<StageSummaryView>,
    pub matched: bool,
    pub reason: Option<Seq<char>>,
    pub differences: Seq<DifferenceView>,
    pub differences_truncated: bool,
}

impl View for CompilerParityRecord {
    type V = ParityView;

    open spec fn view(&self) -> ParityView {
        ParityView {
            normalization: self.normalization,
            scope: self.scope,
            allowlist: self.allowlist@.map_values(|name: &'static str| name@),
            stages: summary_views(self.stages@),
            matched: self.matched,
            reason: optional_label(self.reason),
            differences: difference_views(self.differences@),
            differences_truncated: self.differences_truncated,
        }
    }
}

/// The classes of differences, each once, in the order of their first appearance.
pub open spec fn distinct_classes(differences: Seq<DifferenceView>) -> Seq<Seq<char>>
    decreases differences.len(),
{
    if differences.len() == 0 {
        Seq::empty()
    } else {
        let earlier = distinct_classes(differences.drop_last());
        if earlier.contains(differences.last().class) {
            earlier
        } else {
            earlier.push(differences.last().class)
        }
    }
}

/// The first crate name among differences, at or after `from`.
pub open spec fn first_crate(differences: Seq<DifferenceView>, from: int) -> Option<Seq<char>>
    decreases differences.len() - from,
{
    if from < 0 || from >= differences.len() {
        None
    } else if differences[from].crate_name is Some {
        differences[from].crate_name
    } else {
        first_crate(differences, from + 1)
    }
}

impl CompilerParityRecord {
    /// Bounded difference classes, deduplicated, for a compact report line.
    pub fn difference_classes(&self) -> (classes: Vec<String>)
        ensures
            texts(classes@) == distinct_classes(self@.differences),
    {
        let ghost views = difference_views(self.differences@);
        let mut classes: Vec<String> = Vec::new();
        let mut index: usize = 0;
        assert(views.take(0) =~= Seq::empty());
        assert(texts(classes@) =~= Seq::empty());
        while index < self.differences.len()
            invariant
                index <= self.differences@.len(),
                views == difference_views(self.differences@),
                texts(classes@) == distinct_classes(views.take(index as int)),
            decreases self.differences@.len() - index,
        {
            let class = self.differences[index].class;
            proof {
                let next = views.take(index + 1);
                assert(next.drop_last() =~= views.take(index as int));
                assert(next.last() == self.differences@[index as int]@);
            }
            if !contains_text(&classes, class) {
                let ghost before = classes@;
                classes.push(class.to_owned());
                assert(texts(classes@) =~= texts(before).push(class@));
            }
            index = index + 1;
        }
        assert(views.take(index as int) =~= views);
        classes
    }

    /// The first affected logical crate, when one is safely available.
    pub fn affected_crate(&self) -> (name: Option<String>)
        ensures
            optional_text(name) == first_crate(self@.differences, 0),
    {
        let ghost views = difference_views(self.differences@);
        let mut index: usize = 0;
        while index < self.differences.len()
            invariant
                index <= self.differences@.len(),
                views == difference_views(self.differences@),
                first_crate(views, 0) == first_crate(views, index as int),
            decreases self.differences@.len() - index,
        {
            assert(views[index as int] == self.differences@[index as int]@);
            if let Some(name) = &self.differences[index].crate_name {
                return Some(name.clone());
            }
            index = index + 1;
        }
        None
    }
}

/// The comparable inputs of one target compilation's evidence.
pub open spec fn unit_of_record(record: CaptureRecord) -> UnitView {
    UnitView {
        crate_name: text_or_empty(optional_text(record.crate_name)),
        metadata: optional_text(record.metadata),
        crate_types: texts(record.crate_types@),
        extra_filename: optional_text(record.extra_filename),
        argument_digests: texts(record.argument_digests@),
        normalized_digest: record.normalized_digest@,
    }
}

/// The target compilations among the first `count` records.
pub open spec fn units_of_records(records: Seq<CaptureRecord>, count: int) -> Seq<UnitView>
    decreases count,
{
    if count <= 0 {
        Seq::empty()
    } else {
        let earlier = units_of_records(records, count - 1);
        if records[count - 1].class == InvocationClass::TargetCompile {
            earlier.push(unit_of_record(records[count - 1]))
        } else {
            earlier
        }
    }
}

/// The metadata of each unit, as bytes.
pub open spec fn metadata_keys(units: Seq<UnitView>) -> Seq<Seq<u8>> {
    units.map_values(|unit: UnitView| encode_utf8(text_or_empty(unit.metadata)))
}

/// The crate name of each unit, as bytes.
pub open spec fn name_keys(units: Seq<UnitView>) -> Seq<Seq<u8>> {
    units.map_values(|unit: UnitView| encode_utf8(unit.crate_name))
}

/// Units in the stable order of their crate name, then of their metadata.
pub open spec fn sorted_units(units: Seq<UnitView>) -> Seq<UnitView> {
    let by_metadata = picked(units, byte_order(metadata_keys(units)));
    picked(by_metadata, byte_order(name_keys(by_metadata)))
}

/// The observed inputs of one stage, from its interposition record and its evidence.
pub open spec fn inputs_of_evidence(
    interposition: InterpositionRecord,
    aggregate: CaptureAggregate,
) -> StageView {
    StageView {
        stage: interposition.stage,
        real_rustc: interposition.real_rustc@,
        real_rustc_version: interposition.real_rustc_version@,
        shim_sha256: interposition.shim_sha256@,
        capture_digest: aggregate.capture_digest@,
        record_count: aggregate.record_count as int,
        units: sorted_units(
            units_of_records(aggregate.records@, aggregate.records@.len() as int),
        ),
    }
}

fn units_from_records(records: &Vec<CaptureRecord>) -> (units: Vec<UnitInputs>)
    ensures
        unit_views(units@) == units_of_records(records@, records@.len() as int),
{
    let mut units: Vec<UnitInputs> = Vec::new();
    let mut index: usize = 0;
    assert(unit_views(units@) =~= Seq::empty());
    while index < records.len()
        invariant
            index <= records@.len(),
            unit_views(units@) == units_of_records(records@, index as int),
        decreases records@.len() - index,
    {
        if records[index].class == InvocationClass::TargetCompile {
            let record = &records[index];
            let unit = UnitInputs {
                crate_name: or_empty(&record.crate_name),
                metadata: copy_text(&record.metadata),
                crate_types: record.crate_types.clone(),
                extra_filename: copy_text(&record.extra_filename),
                argument_digests: record.argument_digests.clone(),
                normalized_digest: record.normalized_digest.clone(),
            };
            let ghost before = units@;
            assert(unit@ =~= unit_of_record(records@[index as int]));
            units.push(unit);
            assert(unit_views(units@) =~= unit_views(before).push(unit@));
        }
        index = index + 1;
    }
    units
}

fn sort_units(units: Vec<UnitInputs>) -> (sorted: Vec<UnitInputs>)
    ensures
        unit_views(sorted@) == sorted_units(unit_views(units@)),
{
    let ghost all = unit_views(units@);
    let mut keys: Vec<Vec<u8>> = Vec::new();
    let mut index: usize = 0;
    while index < units.len()
        invariant
            index <= units@.len(),
            keys@.len() == index,
            forall|i: int|
                0 <= i < index ==> (#[trigger] keys@[i])@ == encode_utf8(
                    text_or_empty(units@[i]@.metadata),
                ),
        decreases units@.len() - index,
    {
        keys.push(slice_to_vec(or_empty(&units[index].metadata).as_str().as_bytes()));
        index = index + 1;
    }
    assert(byte_strings(keys@) =~= metadata_keys(all));
    let order = order_keys(&keys);
    let ghost before = units@;
    let by_metadata = arrange(units, &order);
    let ghost middle = unit_views(by_metadata@);
    assert(middle =~= picked(all, order@));
    let mut name_bytes: Vec<Vec<u8>> = Vec::new();
    let mut place: usize = 0;
    while place < by_metadata.len()
        invariant
            place <= by_metadata@.len(),
            name_bytes@.len() == place,
            forall|i: int|
                0 <= i < place ==> (#[trigger] name_bytes@[i])@ == encode_utf8(
                    by_metadata@[i]@.crate_name,
                ),
        decreases by_metadata@.len() - place,
    {
        name_bytes.push(slice_to_vec(by_metadata[place].crate_name.as_str().as_bytes()));
        place = place + 1;
    }
    assert(byte_strings(name_bytes@) =~= name_keys(middle));
    let name_order = order_keys(&name_bytes);
    let ghost names_before = by_metadata@;
    let sorted = arrange(by_metadata, &name_order);
    assert(unit_views(sorted@) =~= picked(middle, name_order@));
    sorted
}

/// Reduces one stage's evidence to its comparable inputs.
pub fn from_evidence(interposition: &InterpositionRecord, aggregate: &CaptureAggregate) -> (inputs:
    StageInputs)
    ensures
        inputs@ == inputs_of_evidence(*interposition, *aggregate),
{
    let units = sort_units(units_from_records(&aggregate.records));
    StageInputs {
        stage: interposition.stage,
        real_rustc: interposition.real_rustc.clone(),
        real_rustc_version: interposition.real_rustc_version.clone(),
        shim_sha256: interposition.shim_sha256.clone(),
        capture_digest: aggregate.capture_digest.clone(),
        record_count: aggregate.record_count,
        units,
    }
}

/// Extracts one stage's observed inputs, when its build was interposed and left evidence.
pub fn stage_inputs(
    interposition: &Option<InterpositionRecord>,
    evidence: &Option<CaptureAggregate>,
) -> (inputs: Option<StageInputs>)
    ensures
        match (*interposition, *evidence) {
            (Some(record), Some(aggregate)) => inputs matches Some(found) && found@
                == inputs_of_evidence(record, aggregate),
            _ => inputs is None,
        },
{
    match (interposition, evidence) {
        (Some(record), Some(aggregate)) => Some(from_evidence(record, aggregate)),
        _ => None,
    }
}

/// The line of one unit in the normalized aggregate.
pub open spec fn unit_line(unit: UnitView) -> Seq<char> {
    unit.crate_name + "|"@ + text_or_empty(unit.metadata) + "|"@ + joined_texts(
        unit.crate_types,
        ","@,
    ) + "|"@ + text_or_empty(unit.extra_filename) + "|"@ + unit.normalized_digest
}

/// The lines of units, as bytes.
pub open spec fn unit_lines(units: Seq<UnitView>) -> Seq<Seq<u8>> {
    units.map_values(|unit: UnitView| encode_utf8(unit_line(unit)))
}

/// The digest of a stage's normalized target compilations.
pub open spec fn aggregate_digest_of(inputs: StageView) -> Seq<char> {
    sha256_text(frame(sorted_bytes(unit_lines(inputs.units))))
}

fn write_unit_line(unit: &UnitInputs) -> (line: String)
    ensures
        line@ == unit_line(unit@),
{
    let mut line = unit.crate_name.clone();
    line.append("|");
    line.append(or_empty(&unit.metadata).as_str());
    line.append("|");
    line.append(join_texts(&unit.crate_types, ",").as_str());
    line.append("|");
    line.append(or_empty(&unit.extra_filename).as_str());
    line.append("|");
    line.append(unit.normalized_digest.as_str());
    line
}

/// The digest of a stage's normalized target compilations.
pub fn aggregate_digest(inputs: &StageInputs) -> (digest: String)
    ensures
        digest@ == aggregate_digest_of(inputs@),
{
    let ghost units = inputs@.units;
    let mut lines: Vec<Vec<u8>> = Vec::new();
    let mut index: usize = 0;
    while index < inputs.units.len()
        invariant
            index <= inputs.units@.len(),
            lines@.len() == index,
            forall|i: int|
                0 <= i < index ==> (#[trigger] lines@[i])@ == encode_utf8(
                    unit_line(inputs.units@[i]@),
                ),
        decreases inputs.units@.len() - index,
    {
        lines.push(slice_to_vec(write_unit_line(&inputs.units[index]).as_str().as_bytes()));
        index = index + 1;
    }
    assert(byte_strings(lines@) =~= unit_lines(units));
    let order = order_keys(&lines);
    let ghost all = lines@;
    let sorted = arrange(lines, &order);
    assert(byte_strings(sorted@) =~= picked(byte_strings(all), order@));
    framed_digest(&sorted)
}

/// The summary of one stage.
pub open spec fn summary_of(inputs: StageView) -> StageSummaryView {
    StageSummaryView {
        stage: inputs.stage,
        record_count: inputs.record_count,
        target_compilations: inputs.units.len() as int,
        capture_digest: inputs.capture_digest,
        normalized_aggregate_digest: aggregate_digest_of(inputs),
    }
}

fn summary(inputs: &StageInputs) -> (summary: StageSummary)
    ensures
        summary@ == summary_of(inputs@),
{
    StageSummary {
        stage: inputs.stage,
        record_count: inputs.record_count,
        target_compilations: inputs.units.len(),
        capture_digest: inputs.capture_digest.clone(),
        normalized_aggregate_digest: aggregate_digest(inputs),
    }
}

/// How often `wanted` stands in a list.
pub open spec fn occurrences(values: Seq<Seq<char>>, wanted: Seq<char>) -> int
    decreases values.len(),
{
    if values.len() == 0 {
        0
    } else {
        occurrences(values.drop_last(), wanted) + if values.last() == wanted {
            1int
        } else {
            0
        }
    }
}

/// Whether some text stands more often in `left` than in `right`.
pub open spec fn holds_more(left: Seq<Seq<char>>, right: Seq<Seq<char>>) -> bool {
    exists|wanted: Seq<char>| #[trigger] occurrences(left, wanted) > occurrences(right, wanted)
}

/// One difference of a class.
pub open spec fn difference(
    class: Seq<char>,
    comparison: Seq<char>,
    crate_name: Option<Seq<char>>,
) -> DifferenceView {
    DifferenceView { class, comparison, crate_name }
}

/// One difference when `found`, and none otherwise.
pub open spec fn when(found: bool, item: DifferenceView) -> Seq<DifferenceView> {
    if found {
        seq![item]
    } else {
        Seq::empty()
    }
}

/// The differences between two units that stand for the same crate.
pub open spec fn unit_differences(
    comparison: Seq<char>,
    left: UnitView,
    right: UnitView,
) -> Seq<DifferenceView> {
    let name = Some(left.crate_name);
    let changed = left.argument_digests != right.argument_digests;
    let removed = holds_more(left.argument_digests, right.argument_digests);
    let added = holds_more(right.argument_digests, left.argument_digests);
    when(
        left.crate_types != right.crate_types,
        difference(CRATE_KIND_CHANGED@, comparison, name),
    ) + when(
        left.extra_filename != right.extra_filename,
        difference(ARTIFACT_EXTRA_FILENAME_CHANGED@, comparison, name),
    ) + when(
        left.argument_digests.len() != right.argument_digests.len(),
        difference(ARGUMENT_COUNT@, comparison, name),
    ) + when(changed && removed, difference(ARGUMENT_REMOVED@, comparison, name)) + when(
        changed && added,
        difference(ARGUMENT_ADDED@, comparison, name),
    ) + when(changed && !removed && !added, difference(ARGUMENT_ORDER@, comparison, name))
}

/// Whether two units of a list share an identity.
pub open spec fn duplicate_identity(units: Seq<UnitView>) -> bool {
    exists|i: int, j: int|
        0 <= i < j < units.len() && identity_of(#[trigger] units[i]) == identity_of(
            #[trigger] units[j],
        )
}

/// The first unit, at or after `from`, with this identity.
pub open spec fn partner(
    units: Seq<UnitView>,
    identity: (Seq<char>, Seq<char>),
    from: int,
) -> Option<int>
    decreases units.len() - from,
{
    if from < 0 || from >= units.len() {
        None
    } else if identity_of(units[from]) == identity {
        Some(from)
    } else {
        partner(units, identity, from + 1)
    }
}

/// Which units of `right` share an identity with one of the first `count` units of `left`.
pub open spec fn paired_by_identity(
    left: Seq<UnitView>,
    right: Seq<UnitView>,
    count: int,
) -> Seq<bool>
    decreases count,
{
    if count <= 0 {
        Seq::new(right.len(), |i: int| false)
    } else {
        let earlier = paired_by_identity(left, right, count - 1);
        match partner(right, identity_of(left[count - 1]), 0) {
            Some(place) => earlier.update(place, true),
            None => earlier,
        }
    }
}

/// The differences inside the pairs of the first `count` units of `left`.
pub open spec fn pair_differences(
    comparison: Seq<char>,
    left: Seq<UnitView>,
    right: Seq<UnitView>,
    count: int,
) -> Seq<DifferenceView>
    decreases count,
{
    if count <= 0 {
        Seq::empty()
    } else {
        let earlier = pair_differences(comparison, left, right, count - 1);
        match partner(right, identity_of(left[count - 1]), 0) {
            Some(place) => earlier + unit_differences(comparison, left[count - 1], right[place]),
            None => earlier,
        }
    }
}

/// Whether an unpaired unit of `right` has this crate name.
pub open spec fn is_counterpart(
    right: Seq<UnitView>,
    paired: Seq<bool>,
    name: Seq<char>,
    index: int,
) -> bool {
    0 <= index < right.len() && !paired[index] && right[index].crate_name == name
}

/// How many unpaired units among the first `count` have this crate name.
pub open spec fn counterpart_count(
    right: Seq<UnitView>,
    paired: Seq<bool>,
    name: Seq<char>,
    count: int,
) -> int
    decreases count,
{
    if count <= 0 {
        0
    } else {
        counterpart_count(right, paired, name, count - 1) + if is_counterpart(
            right,
            paired,
            name,
            count - 1,
        ) {
            1int
        } else {
            0
        }
    }
}

/// The last unpaired unit with this crate name among the first `count`.
pub open spec fn last_counterpart(
    right: Seq<UnitView>,
    paired: Seq<bool>,
    name: Seq<char>,
    count: int,
) -> int
    decreases count,
{
    if count <= 0 {
        -1
    } else if is_counterpart(right, paired, name, count - 1) {
        count - 1
    } else {
        last_counterpart(right, paired, name, count - 1)
    }
}

/// What the unpaired units of `left` add: their differences, and the pairs that they form.
///
/// A leftover pair sharing one crate name differs only by Cargo's artifact identity hash, which
/// is one named difference rather than two crate changes.
pub open spec fn leftovers(
    comparison: Seq<char>,
    left: Seq<UnitView>,
    right: Seq<UnitView>,
    count: int,
) -> (Seq<DifferenceView>, Seq<bool>)
    decreases count,
{
    if count <= 0 {
        (Seq::empty(), paired_by_identity(left, right, left.len() as int))
    } else {
        let (earlier, paired) = leftovers(comparison, left, right, count - 1);
        let unit = left[count - 1];
        let total = right.len() as int;
        if partner(right, identity_of(unit), 0) is Some {
            (earlier, paired)
        } else if counterpart_count(right, paired, unit.crate_name, total) == 1 {
            let place = last_counterpart(right, paired, unit.crate_name, total);
            (
                earlier.push(
                    difference(ARTIFACT_METADATA_CHANGED@, comparison, Some(unit.crate_name)),
                ) + unit_differences(comparison, unit, right[place]),
                paired.update(place, true),
            )
        } else {
            (
                earlier.push(difference(CRATE_MISSING@, comparison, Some(unit.crate_name))),
                paired,
            )
        }
    }
}

/// The added crates among the first `count` units of `right`.
pub open spec fn added_crates(
    comparison: Seq<char>,
    right: Seq<UnitView>,
    paired: Seq<bool>,
    count: int,
) -> Seq<DifferenceView>
    decreases count,
{
    if count <= 0 {
        Seq::empty()
    } else {
        let earlier = added_crates(comparison, right, paired, count - 1);
        if paired[count - 1] {
            earlier
        } else {
            earlier.push(difference(CRATE_ADDED@, comparison, Some(right[count - 1].crate_name)))
        }
    }
}

/// Whether two stages ran different tools.
pub open spec fn tools_differ(left: StageView, right: StageView) -> bool {
    ||| parts(left.real_rustc) != parts(right.real_rustc)
    ||| left.real_rustc_version != right.real_rustc_version
    ||| left.shim_sha256 != right.shim_sha256
}

/// The name of a comparison.
pub open spec fn comparison_name(left: StageView, right: StageView) -> Seq<char> {
    stage_label(left.stage) + "_vs_"@ + stage_label(right.stage)
}

/// The differences between two stages.
pub open spec fn compared(left: StageView, right: StageView) -> Seq<DifferenceView> {
    let comparison = comparison_name(left, right);
    let tools = when(tools_differ(left, right), difference(TOOL_CHANGED@, comparison, None));
    if duplicate_identity(left.units) || duplicate_identity(right.units) {
        tools.push(difference(AMBIGUOUS_CRATE_IDENTITY@, comparison, None))
    } else {
        let count = left.units.len() as int;
        let (rest, paired) = leftovers(comparison, left.units, right.units, count);
        tools + when(
            left.units.len() != right.units.len(),
            difference(CRATE_COUNT@, comparison, None),
        ) + pair_differences(comparison, left.units, right.units, count) + rest + added_crates(
            comparison,
            right.units,
            paired,
            right.units.len() as int,
        )
    }
}

fn push_difference(
    differences: &mut Vec<Difference>,
    class: &'static str,
    comparison: &str,
    crate_name: Option<String>,
)
    ensures
        difference_views(final(differences)@) == difference_views(old(differences)@).push(
            difference(class@, comparison@, optional_text(crate_name)),
        ),
{
    let ghost before = differences@;
    differences.push(Difference { class, comparison: comparison.to_owned(), crate_name });
    assert(difference_views(differences@) =~= difference_views(before).push(
        difference(class@, comparison@, optional_text(crate_name)),
    ));
}

fn count_text(values: &Vec<String>, wanted: &str) -> (count: usize)
    ensures
        count == occurrences(texts(values@), wanted@),
{
    let ghost views = texts(values@);
    let mut count: usize = 0;
    let mut index: usize = 0;
    assert(views.take(0) =~= Seq::empty());
    while index < values.len()
        invariant
            index <= values@.len(),
            views == texts(values@),
            count <= index,
            count == occurrences(views.take(index as int), wanted@),
        decreases values@.len() - index,
    {
        proof {
            let next = views.take(index + 1);
            assert(next.drop_last() =~= views.take(index as int));
            assert(next.last() == values@[index as int]@);
        }
        if same_text(values[index].as_str(), wanted) {
            count = count + 1;
        }
        index = index + 1;
    }
    assert(views.take(index as int) =~= views);
    count
}

proof fn lemma_occurrences(values: Seq<Seq<char>>, wanted: Seq<char>)
    ensures
        occurrences(values, wanted) >= 0,
        occurrences(values, wanted) > 0 ==> values.contains(wanted),
    decreases values.len(),
{
    if values.len() > 0 {
        lemma_occurrences(values.drop_last(), wanted);
        if values.last() == wanted {
            assert(values[values.len() - 1] == wanted);
        } else if occurrences(values, wanted) > 0 {
            let i = choose|i: int|
                0 <= i < values.drop_last().len() && values.drop_last()[i] == wanted;
            assert(values[i] == wanted);
        }
    }
}

fn has_more(left: &Vec<String>, right: &Vec<String>) -> (more: bool)
    ensures
        more == holds_more(texts(left@), texts(right@)),
{
    let ghost first = texts(left@);
    let ghost second = texts(right@);
    let mut index: usize = 0;
    while index < left.len()
        invariant
            index <= left@.len(),
            first == texts(left@),
            second == texts(right@),
            forall|i: int|
                0 <= i < index ==> occurrences(first, #[trigger] first[i]) <= occurrences(
                    second,
                    first[i],
                ),
        decreases left@.len() - index,
    {
        let wanted = left[index].as_str();
        assert(first[index as int] == wanted@);
        if count_text(left, wanted) > count_text(right, wanted) {
            assert(occurrences(first, wanted@) > occurrences(second, wanted@));
            return true;
        }
        index = index + 1;
    }
    proof {
        assert forall|wanted: Seq<char>| #[trigger] occurrences(first, wanted) <= occurrences(
            second,
            wanted,
        ) by {
            lemma_occurrences(first, wanted);
            lemma_occurrences(second, wanted);
            if occurrences(first, wanted) > 0 {
                let i = choose|i: int| 0 <= i < first.len() && first[i] == wanted;
                assert(occurrences(first, first[i]) <= occurrences(second, first[i]));
            }
        }
    }
    false
}

fn compare_unit(
    comparison: &str,
    left: &UnitInputs,
    right: &UnitInputs,
    differences: &mut Vec<Difference>,
)
    ensures
        difference_views(final(differences)@) == difference_views(old(differences)@)
            + unit_differences(comparison@, left@, right@),
{
    let ghost start = difference_views(differences@);
    let ghost name = Some(left@.crate_name);
    if !same_texts(&left.crate_types, &right.crate_types) {
        push_difference(
            differences,
            CRATE_KIND_CHANGED,
            comparison,
            Some(left.crate_name.clone()),
        );
    }
    if !same_optional_text(&left.extra_filename, &right.extra_filename) {
        push_difference(
            differences,
            ARTIFACT_EXTRA_FILENAME_CHANGED,
            comparison,
            Some(left.crate_name.clone()),
        );
    }
    if same_texts(&left.argument_digests, &right.argument_digests) {
        assert(difference_views(differences@) =~= start + unit_differences(
            comparison@,
            left@,
            right@,
        ));
        return;
    }
    assert(texts(left.argument_digests@).len() == left.argument_digests@.len());
    assert(texts(right.argument_digests@).len() == right.argument_digests@.len());
    if left.argument_digests.len() != right.argument_digests.len() {
        push_difference(differences, ARGUMENT_COUNT, comparison, Some(left.crate_name.clone()));
    }
    let removed = has_more(&left.argument_digests, &right.argument_digests);
    let added = has_more(&right.argument_digests, &left.argument_digests);
    if removed {
        push_difference(differences, ARGUMENT_REMOVED, comparison, Some(left.crate_name.clone()));
    }
    if added {
        push_difference(differences, ARGUMENT_ADDED, comparison, Some(left.crate_name.clone()));
    }
    if !removed && !added {
        push_difference(differences, ARGUMENT_ORDER, comparison, Some(left.crate_name.clone()));
    }
    assert(difference_views(differences@) =~= start + unit_differences(
        comparison@,
        left@,
        right@,
    ));
}

fn has_duplicate_identity(units: &Vec<UnitInputs>) -> (duplicate: bool)
    ensures
        duplicate == duplicate_identity(unit_views(units@)),
{
    let ghost views = unit_views(units@);
    let mut index: usize = 0;
    while index < units.len()
        invariant
            index <= units@.len(),
            views == unit_views(units@),
            forall|i: int, j: int|
                0 <= i < j < index ==> identity_of(#[trigger] views[i]) != identity_of(
                    #[trigger] views[j],
                ),
        decreases units@.len() - index,
    {
        let mut earlier: usize = 0;
        while earlier < index
            invariant
                earlier <= index < units@.len(),
                views == unit_views(units@),
                forall|i: int|
                    0 <= i < earlier ==> identity_of(#[trigger] views[i]) != identity_of(
                        views[index as int],
                    ),
            decreases index - earlier,
        {
            assert(views[earlier as int] == units@[earlier as int]@);
            assert(views[index as int] == units@[index as int]@);
            if units[earlier].same_identity(&units[index]) {
                return true;
            }
            earlier = earlier + 1;
        }
        index = index + 1;
    }
    false
}

fn find_partner(units: &Vec<UnitInputs>, unit: &UnitInputs) -> (place: Option<usize>)
    ensures
        match place {
            Some(found) => partner(unit_views(units@), identity_of(unit@), 0) == Some(found as int)
                && found < units@.len(),
            None => partner(unit_views(units@), identity_of(unit@), 0) is None,
        },
{
    let ghost views = unit_views(units@);
    let mut index: usize = 0;
    while index < units.len()
        invariant
            index <= units@.len(),
            views == unit_views(units@),
            partner(views, identity_of(unit@), 0) == partner(
                views,
                identity_of(unit@),
                index as int,
            ),
        decreases units@.len() - index,
    {
        assert(views[index as int] == units@[index as int]@);
        if units[index].same_identity(unit) {
            return Some(index);
        }
        index = index + 1;
    }
    None
}

fn find_counterpart(units: &Vec<UnitInputs>, paired: &Vec<bool>, name: &str) -> (place: Option<
    usize,
>)
    requires
        paired@.len() == units@.len(),
    ensures
        ({
            let views = unit_views(units@);
            let total = views.len() as int;
            match place {
                Some(found) => {
                    &&& counterpart_count(views, paired@, name@, total) == 1
                    &&& found == last_counterpart(views, paired@, name@, total)
                    &&& found < units@.len()
                },
                None => counterpart_count(views, paired@, name@, total) != 1,
            }
        }),
{
    let ghost views = unit_views(units@);
    let mut count: usize = 0;
    let mut last: usize = 0;
    let mut index: usize = 0;
    while index < units.len()
        invariant
            index <= units@.len(),
            paired@.len() == units@.len(),
            views == unit_views(units@),
            count <= index,
            count == counterpart_count(views, paired@, name@, index as int),
            count > 0 ==> last == last_counterpart(views, paired@, name@, index as int) && last
                < units@.len(),
        decreases units@.len() - index,
    {
        assert(views[index as int] == units@[index as int]@);
        if !paired[index] && same_text(units[index].crate_name.as_str(), name) {
            count = count + 1;
            last = index;
        }
        index = index + 1;
    }
    if count == 1 {
        Some(last)
    } else {
        None
    }
}

/// Compares two stages and appends their differences.
pub fn compare(left: &StageInputs, right: &StageInputs, differences: &mut Vec<Difference>)
    ensures
        difference_views(final(differences)@) == difference_views(old(differences)@) + compared(
            left@,
            right@,
        ),
{
    let label = text3(left.stage.label(), "_vs_", right.stage.label());
    let comparison = label.as_str();
    let ghost start = difference_views(differences@);
    let ghost lefts = left@.units;
    let ghost rights = right@.units;
    if !same_path(left.real_rustc.as_slice(), right.real_rustc.as_slice()) || !same_text(
        left.real_rustc_version.as_str(),
        right.real_rustc_version.as_str(),
    ) || !same_text(left.shim_sha256.as_str(), right.shim_sha256.as_str()) {
        push_difference(differences, TOOL_CHANGED, comparison, None);
    }
    let ghost tools = when(
        tools_differ(left@, right@),
        difference(TOOL_CHANGED@, comparison@, None),
    );
    assert(difference_views(differences@) =~= start + tools);
    if has_duplicate_identity(&left.units) || has_duplicate_identity(&right.units) {
        push_difference(differences, AMBIGUOUS_CRATE_IDENTITY, comparison, None);
        assert(difference_views(differences@) =~= start + compared(left@, right@));
        return;
    }
    if left.units.len() != right.units.len() {
        push_difference(differences, CRATE_COUNT, comparison, None);
    }
    let ghost counted = when(
        lefts.len() != rights.len(),
        difference(CRATE_COUNT@, comparison@, None),
    );
    assert(difference_views(differences@) =~= start + tools + counted);

    let mut right_paired: Vec<bool> = Vec::new();
    let mut filled: usize = 0;
    while filled < right.units.len()
        invariant
            filled <= right.units@.len(),
            right_paired@ =~= Seq::new(filled as nat, |i: int| false),
        decreases right.units@.len() - filled,
    {
        right_paired.push(false);
        filled = filled + 1;
    }
    let ghost base = difference_views(differences@);
    let mut index: usize = 0;
    assert(right_paired@ =~= paired_by_identity(lefts, rights, 0));
    assert(base =~= base + pair_differences(comparison@, lefts, rights, 0));
    while index < left.units.len()
        invariant
            index <= left.units@.len(),
            lefts == unit_views(left.units@),
            rights == unit_views(right.units@),
            right_paired@ == paired_by_identity(lefts, rights, index as int),
            right_paired@.len() == right.units@.len(),
            difference_views(differences@) == base + pair_differences(
                comparison@,
                lefts,
                rights,
                index as int,
            ),
        decreases left.units@.len() - index,
    {
        assert(lefts[index as int] == left.units@[index as int]@);
        match find_partner(&right.units, &left.units[index]) {
            Some(place) => {
                assert(rights[place as int] == right.units@[place as int]@);
                right_paired.set(place, true);
                compare_unit(comparison, &left.units[index], &right.units[place], differences);
                assert(difference_views(differences@) =~= base + pair_differences(
                    comparison@,
                    lefts,
                    rights,
                    index + 1,
                ));
            },
            None => {},
        }
        index = index + 1;
    }
    let ghost pairs = pair_differences(comparison@, lefts, rights, lefts.len() as int);
    let ghost middle = difference_views(differences@);
    assert(middle =~= base + pairs);
    let mut leftover: usize = 0;
    assert(middle =~= middle + leftovers(comparison@, lefts, rights, 0).0);
    while leftover < left.units.len()
        invariant
            leftover <= left.units@.len(),
            lefts == unit_views(left.units@),
            rights == unit_views(right.units@),
            right_paired@ == leftovers(comparison@, lefts, rights, leftover as int).1,
            right_paired@.len() == right.units@.len(),
            difference_views(differences@) == middle + leftovers(
                comparison@,
                lefts,
                rights,
                leftover as int,
            ).0,
        decreases left.units@.len() - leftover,
    {
        assert(lefts[leftover as int] == left.units@[leftover as int]@);
        let unit = &left.units[leftover];
        if find_partner(&right.units, unit).is_none() {
            match find_counterpart(&right.units, &right_paired, unit.crate_name.as_str()) {
                Some(place) => {
                    assert(rights[place as int] == right.units@[place as int]@);
                    right_paired.set(place, true);
                    push_difference(
                        differences,
                        ARTIFACT_METADATA_CHANGED,
                        comparison,
                        Some(unit.crate_name.clone()),
                    );
                    compare_unit(comparison, unit, &right.units[place], differences);
                },
                None => {
                    push_difference(
                        differences,
                        CRATE_MISSING,
                        comparison,
                        Some(unit.crate_name.clone()),
                    );
                },
            }
        }
        assert(difference_views(differences@) =~= middle + leftovers(
            comparison@,
            lefts,
            rights,
            leftover + 1,
        ).0);
        leftover = leftover + 1;
    }
    let ghost last = difference_views(differences@);
    let ghost paired = right_paired@;
    let mut added: usize = 0;
    assert(last =~= last + added_crates(comparison@, rights, paired, 0));
    while added < right.units.len()
        invariant
            added <= right.units@.len(),
            rights == unit_views(right.units@),
            paired == right_paired@,
            right_paired@.len() == right.units@.len(),
            difference_views(differences@) == last + added_crates(
                comparison@,
                rights,
                paired,
                added as int,
            ),
        decreases right.units@.len() - added,
    {
        assert(rights[added as int] == right.units@[added as int]@);
        if !right_paired[added] {
            push_difference(
                differences,
                CRATE_ADDED,
                comparison,
                Some(right.units[added].crate_name.clone()),
            );
            assert(difference_views(differences@) =~= last + added_crates(
                comparison@,
                rights,
                paired,
                added + 1,
            ));
        }
        added = added + 1;
    }
    assert(difference_views(differences@) =~= start + compared(left@, right@));
}

/// One stage of a decision: its name, and its inputs when there are any.
#[derive(Debug)]
pub struct StageEvidence {
    pub stage: ShimStage,
    pub inputs: Option<StageInputs>,
}

/// The view of optional stage inputs.
pub open spec fn optional_inputs(inputs: Option<StageInputs>) -> Option<StageView> {
    match inputs {
        Some(found) => Some(found@),
        None => None,
    }
}

/// The stages and inputs of a decision.
pub open spec fn evidence_views(evidence: Seq<StageEvidence>) -> Seq<
    (ShimStage, Option<StageView>),
> {
    evidence.map_values(|item: StageEvidence| (item.stage, optional_inputs(item.inputs)))
}

/// The difference that stands for missing evidence of a stage.
pub open spec fn unavailable(stage: ShimStage) -> DifferenceView {
    difference(EVIDENCE_UNAVAILABLE@, stage_label(stage), None)
}

/// All differences between the anchor and the first `count` candidates.
pub open spec fn all_differences(
    anchor_stage: ShimStage,
    anchor: Option<StageView>,
    candidates: Seq<(ShimStage, Option<StageView>)>,
    count: int,
) -> Seq<DifferenceView>
    decreases count,
{
    if count <= 0 {
        when(anchor is None, unavailable(anchor_stage))
    } else {
        let earlier = all_differences(anchor_stage, anchor, candidates, count - 1);
        match (anchor, candidates[count - 1].1) {
            (Some(left), Some(right)) => earlier + compared(left, right),
            _ => earlier.push(unavailable(candidates[count - 1].0)),
        }
    }
}

/// The summaries of the anchor and of the first `count` candidates that have inputs.
pub open spec fn all_summaries(
    anchor: Option<StageView>,
    candidates: Seq<(ShimStage, Option<StageView>)>,
    count: int,
) -> Seq<StageSummaryView>
    decreases count,
{
    if count <= 0 {
        match anchor {
            Some(inputs) => seq![summary_of(inputs)],
            None => Seq::empty(),
        }
    } else {
        let earlier = all_summaries(anchor, candidates, count - 1);
        match candidates[count - 1].1 {
            Some(inputs) => earlier.push(summary_of(inputs)),
            None => earlier,
        }
    }
}

/// The closed normalization allowlist. Anything outside it rejects PGO.
pub open spec fn allowlist_names() -> Seq<Seq<char>> {
    seq![
        "stage_target_root_paths"@,
        "profile_generate_vs_profile_use"@,
        "pgo_warn_missing_function_in_use"@,
    ]
}

/// The decision over an anchor and its candidates.
pub open spec fn decision(
    scope: ParityScope,
    anchor_stage: ShimStage,
    anchor: Option<StageView>,
    candidates: Seq<(ShimStage, Option<StageView>)>,
) -> ParityView {
    let count = candidates.len() as int;
    let found = all_differences(anchor_stage, anchor, candidates, count);
    ParityView {
        normalization: NORMALIZATION_VERSION,
        scope,
        allowlist: allowlist_names(),
        stages: all_summaries(anchor, candidates, count),
        matched: found.len() == 0,
        reason: if found.len() == 0 {
            None
        } else {
            Some(MISMATCH_REASON@)
        },
        differences: at_most(found, DIFFERENCE_LIMIT as int),
        differences_truncated: found.len() > DIFFERENCE_LIMIT,
    }
}

fn decide(scope: ParityScope, anchor: StageEvidence, candidates: &Vec<StageEvidence>) -> (record:
    CompilerParityRecord)
    ensures
        record@ == decision(
            scope,
            anchor.stage,
            optional_inputs(anchor.inputs),
            evidence_views(candidates@),
        ),
{
    let ghost views = evidence_views(candidates@);
    let ghost base = optional_inputs(anchor.inputs);
    let mut differences: Vec<Difference> = Vec::new();
    let mut stages: Vec<StageSummary> = Vec::new();
    assert(difference_views(differences@) =~= Seq::empty());
    assert(summary_views(stages@) =~= Seq::empty());
    match &anchor.inputs {
        Some(inputs) => {
            stages.push(summary(inputs));
            assert(summary_views(stages@) =~= seq![summary_of(inputs@)]);
        },
        None => {
            push_difference(
                &mut differences,
                EVIDENCE_UNAVAILABLE,
                anchor.stage.label(),
                None,
            );
            assert(difference_views(differences@) =~= seq![unavailable(anchor.stage)]);
        },
    }
    let mut index: usize = 0;
    while index < candidates.len()
        invariant
            index <= candidates@.len(),
            views == evidence_views(candidates@),
            base == optional_inputs(anchor.inputs),
            difference_views(differences@) == all_differences(
                anchor.stage,
                base,
                views,
                index as int,
            ),
            summary_views(stages@) == all_summaries(base, views, index as int),
        decreases candidates@.len() - index,
    {
        let candidate = &candidates[index];
        assert(views[index as int] == (candidate.stage, optional_inputs(candidate.inputs)));
        if let Some(inputs) = &candidate.inputs {
            let ghost before = stages@;
            stages.push(summary(inputs));
            assert(summary_views(stages@) =~= summary_views(before).push(summary_of(inputs@)));
        }
        match (&anchor.inputs, &candidate.inputs) {
            (Some(left), Some(right)) => {
                compare(left, right, &mut differences);
            },
            _ => {
                push_difference(
                    &mut differences,
                    EVIDENCE_UNAVAILABLE,
                    candidate.stage.label(),
                    None,
                );
            },
        }
        index = index + 1;
    }
    let matched: bool = differences.len() == 0;
    let differences_truncated: bool = differences.len() > DIFFERENCE_LIMIT;
    let ghost found = difference_views(differences@);
    if differences_truncated {
        differences.truncate(DIFFERENCE_LIMIT);
    }
    assert(difference_views(differences@) =~= at_most(
        found,
        DIFFERENCE_LIMIT as int,
    ));
    let mut allowlist: Vec<&'static str> = Vec::new();
    allowlist.push("stage_target_root_paths");
    allowlist.push("profile_generate_vs_profile_use");
    allowlist.push("pgo_warn_missing_function_in_use");
    assert(allowlist@.map_values(|name: &'static str| name@) =~= allowlist_names());
    CompilerParityRecord {
        normalization: NORMALIZATION_VERSION,
        scope,
        allowlist,
        stages,
        matched,
        reason: if matched {
            None
        } else {
            Some(MISMATCH_REASON)
        },
        differences,
        differences_truncated,
    }
}

/// Training parity: the pass-through reference against both PGO phases.
pub open spec fn training_decision(
    reference: Option<StageView>,
    generation: Option<StageView>,
    optimization: Option<StageView>,
) -> ParityView {
    decision(
        ParityScope::PgoTraining,
        ShimStage::Reference,
        reference,
        seq![(ShimStage::Generate, generation), (ShimStage::Use, optimization)],
    )
}

/// Confirmation parity: the accepted optimized build against its rebuild.
pub open spec fn confirmation_decision(
    optimization: Option<StageView>,
    confirmation: Option<StageView>,
) -> ParityView {
    decision(
        ParityScope::PgoConfirmation,
        ShimStage::Use,
        optimization,
        seq![(ShimStage::Confirmation, confirmation)],
    )
}

/// Decides training parity: the pass-through reference against both PGO phases.
pub fn decide_training(
    reference: Option<StageInputs>,
    generation: Option<StageInputs>,
    optimization: Option<StageInputs>,
) -> (record: CompilerParityRecord)
    ensures
        record@ == training_decision(
            optional_inputs(reference),
            optional_inputs(generation),
            optional_inputs(optimization),
        ),
{
    let mut candidates: Vec<StageEvidence> = Vec::new();
    candidates.push(StageEvidence { stage: ShimStage::Generate, inputs: generation });
    candidates.push(StageEvidence { stage: ShimStage::Use, inputs: optimization });
    assert(evidence_views(candidates@) =~= seq![
        (ShimStage::Generate, optional_inputs(generation)),
        (ShimStage::Use, optional_inputs(optimization)),
    ]);
    decide(
        ParityScope::PgoTraining,
        StageEvidence { stage: ShimStage::Reference, inputs: reference },
        &candidates,
    )
}

/// Decides confirmation parity: the accepted optimized build against the fresh confirmation
/// rebuild, before promotion.
pub fn decide_confirmation(
    optimization: Option<StageInputs>,
    confirmation: Option<StageInputs>,
) -> (record: CompilerParityRecord)
    ensures
        record@ == confirmation_decision(
            optional_inputs(optimization),
            optional_inputs(confirmation),
        ),
{
    let mut candidates: Vec<StageEvidence> = Vec::new();
    candidates.push(StageEvidence { stage: ShimStage::Confirmation, inputs: confirmation });
    assert(evidence_views(candidates@) =~= seq![
        (ShimStage::Confirmation, optional_inputs(confirmation)),
    ]);
    decide(
        ParityScope::PgoConfirmation,
        StageEvidence { stage: ShimStage::Use, inputs: optimization },
        &candidates,
    )
}

proof fn lemma_differences_grow(
    anchor_stage: ShimStage,
    anchor: Option<StageView>,
    candidates: Seq<(ShimStage, Option<StageView>)>,
    count: int,
    more: int,
)
    requires
        0 <= count <= more,
    ensures
        all_differences(anchor_stage, anchor, candidates, count).len() <= all_differences(
            anchor_stage,
            anchor,
            candidates,
            more,
        ).len(),
    decreases more - count,
{
    if count < more {
        lemma_differences_grow(anchor_stage, anchor, candidates, count, more - 1);
    }
}

/// A comparison that lacks the evidence of any of its stages never matches, and always carries
/// the stable reason.
pub proof fn law_incomplete_comparisons_never_match(
    scope: ParityScope,
    anchor_stage: ShimStage,
    anchor: Option<StageView>,
    candidates: Seq<(ShimStage, Option<StageView>)>,
)
    requires
        anchor is None || exists|i: int|
            0 <= i < candidates.len() && (#[trigger] candidates[i]).1 is None,
    ensures
        !decision(scope, anchor_stage, anchor, candidates).matched,
        decision(scope, anchor_stage, anchor, candidates).reason == Some(MISMATCH_REASON@),
        decision(scope, anchor_stage, anchor, candidates).differences.len() > 0,
{
    let total = candidates.len() as int;
    if anchor is None {
        lemma_differences_grow(anchor_stage, anchor, candidates, 0, total);
    } else {
        let i = choose|i: int| 0 <= i < candidates.len() && (#[trigger] candidates[i]).1 is None;
        lemma_differences_grow(anchor_stage, anchor, candidates, i + 1, total);
        assert(all_differences(anchor_stage, anchor, candidates, i + 1).len() > 0);
    }
}

/// A record matches exactly when it lists no difference; otherwise it carries the stable reason,
/// however many entries were truncated, and never lists more than the bounded number.
pub proof fn law_truncation_keeps_the_reason(
    scope: ParityScope,
    anchor_stage: ShimStage,
    anchor: Option<StageView>,
    candidates: Seq<(ShimStage, Option<StageView>)>,
)
    ensures
        ({
            let record = decision(scope, anchor_stage, anchor, candidates);
            &&& record.matched <==> record.differences.len() == 0
            &&& record.matched <==> record.reason is None
            &&& !record.matched ==> record.reason == Some(MISMATCH_REASON@)
            &&& record.differences.len() <= DIFFERENCE_LIMIT
            &&& record.differences_truncated ==> !record.matched
        }),
{
}

/// Whether every difference belongs to the closed set of classes.
pub open spec fn closed_classes(differences: Seq<DifferenceView>) -> bool {
    forall|i: int|
        0 <= i < differences.len() ==> difference_class_set().contains(
            (#[trigger] differences[i]).class,
        )
}

proof fn lemma_class_set()
    ensures
        difference_class_set().contains(EVIDENCE_UNAVAILABLE@),
        difference_class_set().contains(TOOL_CHANGED@),
        difference_class_set().contains(AMBIGUOUS_CRATE_IDENTITY@),
        difference_class_set().contains(CRATE_COUNT@),
        difference_class_set().contains(CRATE_ADDED@),
        difference_class_set().contains(CRATE_MISSING@),
        difference_class_set().contains(ARTIFACT_METADATA_CHANGED@),
        difference_class_set().contains(ARTIFACT_EXTRA_FILENAME_CHANGED@),
        difference_class_set().contains(CRATE_KIND_CHANGED@),
        difference_class_set().contains(ARGUMENT_COUNT@),
        difference_class_set().contains(ARGUMENT_ADDED@),
        difference_class_set().contains(ARGUMENT_REMOVED@),
        difference_class_set().contains(ARGUMENT_ORDER@),
{
    let classes = difference_class_set();
    assert(classes[0] == EVIDENCE_UNAVAILABLE@);
    assert(classes[1] == TOOL_CHANGED@);
    assert(classes[2] == AMBIGUOUS_CRATE_IDENTITY@);
    assert(classes[3] == CRATE_COUNT@);
    assert(classes[4] == CRATE_ADDED@);
    assert(classes[5] == CRATE_MISSING@);
    assert(classes[6] == ARTIFACT_METADATA_CHANGED@);
    assert(classes[7] == ARTIFACT_EXTRA_FILENAME_CHANGED@);
    assert(classes[8] == CRATE_KIND_CHANGED@);
    assert(classes[9] == ARGUMENT_COUNT@);
    assert(classes[10] == ARGUMENT_ADDED@);
    assert(classes[11] == ARGUMENT_REMOVED@);
    assert(classes[12] == ARGUMENT_ORDER@);
}

proof fn lemma_unit_classes(comparison: Seq<char>, left: UnitView, right: UnitView)
    ensures
        closed_classes(unit_differences(comparison, left, right)),
{
    lemma_class_set();
}

proof fn lemma_closed_join(first: Seq<DifferenceView>, second: Seq<DifferenceView>)
    requires
        closed_classes(first),
        closed_classes(second),
    ensures
        closed_classes(first + second),
{
}

proof fn lemma_pair_classes(
    comparison: Seq<char>,
    left: Seq<UnitView>,
    right: Seq<UnitView>,
    count: int,
)
    ensures
        closed_classes(pair_differences(comparison, left, right, count)),
        closed_classes(leftovers(comparison, left, right, count).0),
    decreases count,
{
    lemma_class_set();
    if count > 0 {
        lemma_pair_classes(comparison, left, right, count - 1);
        match partner(right, identity_of(left[count - 1]), 0) {
            Some(place) => {
                lemma_unit_classes(comparison, left[count - 1], right[place]);
                lemma_closed_join(
                    pair_differences(comparison, left, right, count - 1),
                    unit_differences(comparison, left[count - 1], right[place]),
                );
            },
            None => {
                let (earlier, paired) = leftovers(comparison, left, right, count - 1);
                let unit = left[count - 1];
                let place = last_counterpart(right, paired, unit.crate_name, right.len() as int);
                lemma_unit_classes(comparison, unit, right[place]);
                lemma_closed_join(
                    earlier.push(
                        difference(ARTIFACT_METADATA_CHANGED@, comparison, Some(unit.crate_name)),
                    ),
                    unit_differences(comparison, unit, right[place]),
                );
            },
        }
    }
}

proof fn lemma_added_classes(
    comparison: Seq<char>,
    right: Seq<UnitView>,
    paired: Seq<bool>,
    count: int,
)
    ensures
        closed_classes(added_crates(comparison, right, paired, count)),
    decreases count,
{
    lemma_class_set();
    if count > 0 {
        lemma_added_classes(comparison, right, paired, count - 1);
    }
}

proof fn lemma_compared_classes(left: StageView, right: StageView)
    ensures
        closed_classes(compared(left, right)),
{
    lemma_class_set();
    let comparison = comparison_name(left, right);
    let count = left.units.len() as int;
    let (rest, paired) = leftovers(comparison, left.units, right.units, count);
    lemma_pair_classes(comparison, left.units, right.units, count);
    lemma_added_classes(comparison, right.units, paired, right.units.len() as int);
}

proof fn lemma_all_classes(
    anchor_stage: ShimStage,
    anchor: Option<StageView>,
    candidates: Seq<(ShimStage, Option<StageView>)>,
    count: int,
)
    ensures
        closed_classes(all_differences(anchor_stage, anchor, candidates, count)),
    decreases count,
{
    lemma_class_set();
    if count > 0 {
        lemma_all_classes(anchor_stage, anchor, candidates, count - 1);
        match (anchor, candidates[count - 1].1) {
            (Some(left), Some(right)) => {
                lemma_compared_classes(left, right);
            },
            _ => {},
        }
    }
}

/// Every reported difference belongs to the closed set of classes.
pub proof fn law_difference_classes_are_closed(
    scope: ParityScope,
    anchor_stage: ShimStage,
    anchor: Option<StageView>,
    candidates: Seq<(ShimStage, Option<StageView>)>,
)
    ensures
        closed_classes(decision(scope, anchor_stage, anchor, candidates).differences),
{
    lemma_all_classes(anchor_stage, anchor, candidates, candidates.len() as int);
}

/// Whether two units stand for the same crate and were compiled from the same inputs.
pub open spec fn same_unit_inputs(left: UnitView, right: UnitView) -> bool {
    &&& left.crate_name == right.crate_name
    &&& or_nothing(left.metadata) == or_nothing(right.metadata)
    &&& left.crate_types == right.crate_types
    &&& left.extra_filename == right.extra_filename
    &&& left.argument_digests == right.argument_digests
}

/// Whether two stages received the same compiler inputs.
pub open spec fn same_stage_inputs(left: StageView, right: StageView) -> bool {
    &&& parts(left.real_rustc) == parts(right.real_rustc)
    &&& left.real_rustc_version == right.real_rustc_version
    &&& left.shim_sha256 == right.shim_sha256
    &&& units_are_told_apart(left.units)
    &&& units_are_told_apart(right.units)
    &&& left.units.len() == right.units.len()
    &&& forall|i: int| 0 <= i < left.units.len() ==> #[trigger] has_match(left, right, i)
}

/// Whether the unit at `index` of `left` has a unit of `right` with the same inputs.
pub open spec fn has_match(left: StageView, right: StageView, index: int) -> bool {
    exists|j: int|
        0 <= j < right.units.len() && same_unit_inputs(left.units[index], #[trigger] right.units[j])
}

proof fn lemma_partner(units: Seq<UnitView>, identity: (Seq<char>, Seq<char>), from: int)
    requires
        0 <= from,
    ensures
        match partner(units, identity, from) {
            Some(place) => from <= place < units.len() && identity_of(units[place]) == identity,
            None => forall|i: int|
                from <= i < units.len() ==> identity_of(#[trigger] units[i]) != identity,
        },
    decreases units.len() - from,
{
    if from < units.len() && identity_of(units[from]) != identity {
        lemma_partner(units, identity, from + 1);
    }
}

proof fn lemma_no_unit_difference(comparison: Seq<char>, left: UnitView, right: UnitView)
    ensures
        unit_differences(comparison, left, right).len() == 0 <==> left.crate_types
            == right.crate_types && left.extra_filename == right.extra_filename
            && left.argument_digests == right.argument_digests,
{
}

proof fn lemma_silent_pairs(
    comparison: Seq<char>,
    left: Seq<UnitView>,
    right: Seq<UnitView>,
    count: int,
)
    requires
        0 <= count <= left.len(),
    ensures
        pair_differences(comparison, left, right, count).len() == 0 <==> forall|i: int|
            #![trigger left[i]]
            0 <= i < count ==> (partner(right, identity_of(left[i]), 0) matches Some(place)
                ==> unit_differences(comparison, left[i], right[place]).len() == 0),
        leftovers(comparison, left, right, count).0.len() == 0 <==> forall|i: int|
            #![trigger left[i]]
            0 <= i < count ==> partner(right, identity_of(left[i]), 0) is Some,
        leftovers(comparison, left, right, count).0.len() == 0 ==> leftovers(
            comparison,
            left,
            right,
            count,
        ).1 == paired_by_identity(left, right, left.len() as int),
    decreases count,
{
    if count > 0 {
        lemma_silent_pairs(comparison, left, right, count - 1);
        let unit = left[count - 1];
        assert(left[count - 1] == unit);
        match partner(right, identity_of(unit), 0) {
            Some(place) => {
                assert(pair_differences(comparison, left, right, count).len()
                    == pair_differences(comparison, left, right, count - 1).len()
                    + unit_differences(comparison, unit, right[place]).len());
            },
            None => {
                assert(leftovers(comparison, left, right, count).0.len() > 0);
            },
        }
    }
}

proof fn lemma_paired(left: Seq<UnitView>, right: Seq<UnitView>, count: int)
    requires
        0 <= count <= left.len(),
    ensures
        paired_by_identity(left, right, count).len() == right.len(),
        forall|j: int|
            #![trigger paired_by_identity(left, right, count)[j]]
            0 <= j < right.len() ==> (paired_by_identity(left, right, count)[j] <==> exists|i: int|
                0 <= i < count && partner(right, identity_of(#[trigger] left[i]), 0) == Some(j)),
    decreases count,
{
    if count > 0 {
        lemma_paired(left, right, count - 1);
        let identity = identity_of(left[count - 1]);
        lemma_partner(right, identity, 0);
        let earlier = paired_by_identity(left, right, count - 1);
        let now = paired_by_identity(left, right, count);
        assert forall|j: int| #![trigger now[j]] 0 <= j < right.len() implies (now[j]
            <==> exists|i: int|
            0 <= i < count && partner(right, identity_of(#[trigger] left[i]), 0) == Some(j)) by {
            if partner(right, identity, 0) == Some(j) {
                assert(identity_of(left[count - 1]) == identity);
            } else {
                assert(now[j] == earlier[j]);
                if exists|i: int|
                    0 <= i < count && partner(right, identity_of(#[trigger] left[i]), 0) == Some(
                        j,
                    ) {
                    let i = choose|i: int|
                        0 <= i < count && partner(right, identity_of(#[trigger] left[i]), 0)
                            == Some(j);
                    assert(i < count - 1);
                }
            }
        }
    }
}

proof fn lemma_no_added(
    comparison: Seq<char>,
    right: Seq<UnitView>,
    paired: Seq<bool>,
    count: int,
)
    requires
        0 <= count <= right.len(),
    ensures
        added_crates(comparison, right, paired, count).len() == 0 <==> forall|j: int|
            0 <= j < count ==> #[trigger] paired[j],
    decreases count,
{
    if count > 0 {
        lemma_no_added(comparison, right, paired, count - 1);
        assert(paired[count - 1] || !paired[count - 1]);
    }
}

proof fn lemma_all_paired(left: Seq<UnitView>, right: Seq<UnitView>, wanted: int)
    requires
        left.len() == right.len(),
        0 <= wanted < right.len(),
        !duplicate_identity(left),
        forall|i: int|
            #![trigger left[i]]
            0 <= i < left.len() ==> partner(right, identity_of(left[i]), 0) is Some,
    ensures
        exists|i: int|
            0 <= i < left.len() && partner(right, identity_of(#[trigger] left[i]), 0) == Some(
                wanted,
            ),
{
    let places = Seq::new(
        left.len(),
        |i: int| partner(right, identity_of(left[i]), 0)->0,
    );
    assert forall|i: int| 0 <= i < places.len() implies 0 <= #[trigger] places[i]
        < right.len() by {
        lemma_partner(right, identity_of(left[i]), 0);
        assert(partner(right, identity_of(left[i]), 0) is Some);
    }
    assert forall|i: int, j: int| 0 <= i < j < places.len() implies #[trigger] places[i]
        != #[trigger] places[j] by {
        lemma_partner(right, identity_of(left[i]), 0);
        lemma_partner(right, identity_of(left[j]), 0);
        if places[i] == places[j] {
            assert(identity_of(left[i]) == identity_of(left[j]));
        }
    }
    lemma_reaches(places, right.len() as int, wanted);
    let k = choose|k: int| 0 <= k < places.len() && #[trigger] places[k] == wanted;
    assert(partner(right, identity_of(left[k]), 0) == Some(wanted));
}

/// Two stages show no difference exactly when they ran the same tools on the same target
/// compilations, unit by unit, with no identity given twice.
pub proof fn law_silence_means_same_inputs(left: StageView, right: StageView)
    ensures
        compared(left, right).len() == 0 <==> same_stage_inputs(left, right),
{
    lemma_told_apart(left.units);
    lemma_told_apart(right.units);
    if duplicate_identity(left.units) || duplicate_identity(right.units) {
        assert(compared(left, right).len() > 0);
        assert(!same_stage_inputs(left, right));
    } else {
        lemma_silence(left, right);
    }
}

proof fn lemma_silence(left: StageView, right: StageView)
    requires
        !duplicate_identity(left.units),
        !duplicate_identity(right.units),
    ensures
        compared(left, right).len() == 0 <==> same_stage_inputs(left, right),
{
    lemma_told_apart(left.units);
    lemma_told_apart(right.units);
    let comparison = comparison_name(left, right);
    let lefts = left.units;
    let rights = right.units;
    let count = lefts.len() as int;
    let (rest, paired) = leftovers(comparison, lefts, rights, count);
    let inside = pair_differences(comparison, lefts, rights, count);
    let added = added_crates(comparison, rights, paired, rights.len() as int);
    assert(compared(left, right).len() == 0 <==> {
        &&& !tools_differ(left, right)
        &&& lefts.len() == rights.len()
        &&& inside.len() == 0
        &&& rest.len() == 0
        &&& added.len() == 0
    });
    lemma_silent_pairs(comparison, lefts, rights, count);
    lemma_paired(lefts, rights, count);
    lemma_no_added(comparison, rights, paired, rights.len() as int);
    if compared(left, right).len() == 0 {
        assert forall|i: int| 0 <= i < lefts.len() implies #[trigger] has_match(
            left,
            right,
            i,
        ) by {
            assert(partner(rights, identity_of(lefts[i]), 0) is Some);
            let place = partner(rights, identity_of(lefts[i]), 0)->0;
            lemma_partner(rights, identity_of(lefts[i]), 0);
            lemma_no_unit_difference(comparison, lefts[i], rights[place]);
            assert(same_unit_inputs(lefts[i], right.units[place]));
        }
    }
    if same_stage_inputs(left, right) {
        assert forall|i: int|
            #![trigger lefts[i]]
            0 <= i < count implies partner(rights, identity_of(lefts[i]), 0) is Some
            && unit_differences(
            comparison,
            lefts[i],
            rights[partner(rights, identity_of(lefts[i]), 0)->0],
        ).len() == 0 by {
            assert(has_match(left, right, i));
            let j = choose|j: int|
                0 <= j < right.units.len() && same_unit_inputs(
                    left.units[i],
                    #[trigger] right.units[j],
                );
            lemma_partner(rights, identity_of(lefts[i]), 0);
            assert(identity_of(rights[j]) == identity_of(lefts[i]));
            let place = partner(rights, identity_of(lefts[i]), 0)->0;
            if place < j {
                assert(identity_of(rights[place]) == identity_of(rights[j]));
            } else if j < place {
                assert(identity_of(rights[j]) == identity_of(rights[place]));
            }
            assert(place == j);
            lemma_no_unit_difference(comparison, lefts[i], rights[place]);
        }
        assert(rest.len() == 0);
        assert forall|j: int| 0 <= j < rights.len() implies #[trigger] paired[j] by {
            lemma_all_paired(lefts, rights, j);
        }
    }
}

/// Whether `order` is a rearrangement of `count` places.
pub open spec fn rearrangement(order: Seq<int>, count: int) -> bool {
    &&& order.len() == count
    &&& forall|i: int| 0 <= i < order.len() ==> 0 <= #[trigger] order[i] < count
    &&& forall|i: int, j: int|
        0 <= i < j < order.len() ==> #[trigger] order[i] != #[trigger] order[j]
}

/// The order of a stage's records alone is never a difference: rearranging the units of one
/// stage keeps the comparison silent or not silent.
pub proof fn law_record_order_is_no_difference(
    left: StageView,
    right: StageView,
    rearranged: StageView,
    order: Seq<int>,
)
    requires
        rearrangement(order, right.units.len() as int),
        rearranged.real_rustc == right.real_rustc,
        rearranged.real_rustc_version == right.real_rustc_version,
        rearranged.shim_sha256 == right.shim_sha256,
        rearranged.units == Seq::new(right.units.len(), |i: int| right.units[order[i]]),
    ensures
        compared(left, rearranged).len() == 0 <==> compared(left, right).len() == 0,
{
    law_silence_means_same_inputs(left, right);
    law_silence_means_same_inputs(left, rearranged);
    lemma_told_apart(right.units);
    lemma_told_apart(rearranged.units);
    let total = right.units.len() as int;
    if duplicate_identity(rearranged.units) {
        let (i, j) = choose|i: int, j: int|
            0 <= i < j < rearranged.units.len() && identity_of(#[trigger] rearranged.units[i])
                == identity_of(#[trigger] rearranged.units[j]);
        assert(order[i] != order[j]);
        let a = if order[i] < order[j] {
            order[i]
        } else {
            order[j]
        };
        let b = if order[i] < order[j] {
            order[j]
        } else {
            order[i]
        };
        assert(identity_of(right.units[a]) == identity_of(right.units[b]));
    }
    if duplicate_identity(right.units) {
        let (i, j) = choose|i: int, j: int|
            0 <= i < j < right.units.len() && identity_of(#[trigger] right.units[i])
                == identity_of(#[trigger] right.units[j]);
        lemma_reaches(order, total, i);
        lemma_reaches(order, total, j);
        let k = choose|k: int| 0 <= k < order.len() && #[trigger] order[k] == i;
        let l = choose|l: int| 0 <= l < order.len() && #[trigger] order[l] == j;
        let a = if k < l {
            k
        } else {
            l
        };
        let b = if k < l {
            l
        } else {
            k
        };
        assert(identity_of(rearranged.units[a]) == identity_of(rearranged.units[b]));
    }
    assert forall|i: int| 0 <= i < left.units.len() implies #[trigger] has_match(left, right, i)
        == has_match(left, rearranged, i) by {
        if has_match(left, right, i) {
            let j = choose|j: int|
                0 <= j < right.units.len() && same_unit_inputs(
                    left.units[i],
                    #[trigger] right.units[j],
                );
            lemma_reaches(order, total, j);
            let k = choose|k: int| 0 <= k < order.len() && #[trigger] order[k] == j;
            assert(same_unit_inputs(left.units[i], rearranged.units[k]));
        }
        if has_match(left, rearranged, i) {
            let k = choose|k: int|
                0 <= k < rearranged.units.len() && same_unit_inputs(
                    left.units[i],
                    #[trigger] rearranged.units[k],
                );
            assert(same_unit_inputs(left.units[i], right.units[order[k]]));
        }
    }
    assert forall|i: int| 0 <= i < left.units.len() && same_stage_inputs(
        left,
        right,
    ) implies #[trigger] has_match(left, rearranged, i) by {
        assert(has_match(left, right, i));
    }
    assert forall|i: int| 0 <= i < left.units.len() && same_stage_inputs(
        left,
        rearranged,
    ) implies #[trigger] has_match(left, right, i) by {
        assert(has_match(left, rearranged, i));
    }
}

proof fn lemma_all_silent(
    anchor_stage: ShimStage,
    anchor: Option<StageView>,
    candidates: Seq<(ShimStage, Option<StageView>)>,
    count: int,
)
    requires
        0 <= count <= candidates.len(),
    ensures
        all_differences(anchor_stage, anchor, candidates, count).len() == 0 <==> {
            &&& anchor is Some
            &&& forall|i: int|
                #![trigger candidates[i]]
                0 <= i < count ==> candidates[i].1 is Some && same_stage_inputs(
                    anchor->0,
                    candidates[i].1->0,
                )
        },
    decreases count,
{
    if count > 0 {
        lemma_all_silent(anchor_stage, anchor, candidates, count - 1);
        let last = candidates[count - 1];
        assert(last == candidates[count - 1]);
        if anchor is Some && last.1 is Some {
            law_silence_means_same_inputs(anchor->0, last.1->0);
        }
    }
}

/// A decision matches exactly when the anchor and every candidate have inputs, and each candidate
/// received the same inputs as the anchor.
pub proof fn law_matches_mean_same_inputs_everywhere(
    scope: ParityScope,
    anchor_stage: ShimStage,
    anchor: Option<StageView>,
    candidates: Seq<(ShimStage, Option<StageView>)>,
)
    ensures
        decision(scope, anchor_stage, anchor, candidates).matched <==> {
            &&& anchor is Some
            &&& forall|i: int|
                #![trigger candidates[i]]
                0 <= i < candidates.len() ==> candidates[i].1 is Some && same_stage_inputs(
                    anchor->0,
                    candidates[i].1->0,
                )
        },
        decision(scope, anchor_stage, anchor, candidates).reason == if decision(
            scope,
            anchor_stage,
            anchor,
            candidates,
        ).matched {
            None
        } else {
            Some("compiler_input_mismatch"@)
        },
        decision(scope, anchor_stage, anchor, candidates).scope == scope,
{
    lemma_all_silent(anchor_stage, anchor, candidates, candidates.len() as int);
}

/// A training matches exactly when all three stages have inputs, and both the instrumented and the
/// optimized stage received the inputs of the reference.
pub proof fn law_trainings_compare_both_stages_with_the_reference(
    reference: Option<StageView>,
    generation: Option<StageView>,
    optimization: Option<StageView>,
)
    ensures
        training_decision(reference, generation, optimization).matched <==> {
            &&& reference is Some
            &&& generation is Some
            &&& optimization is Some
            &&& same_stage_inputs(reference->0, generation->0)
            &&& same_stage_inputs(reference->0, optimization->0)
        },
        training_decision(reference, generation, optimization).scope == ParityScope::PgoTraining,
{
    let candidates = seq![(ShimStage::Generate, generation), (ShimStage::Use, optimization)];
    law_matches_mean_same_inputs_everywhere(
        ParityScope::PgoTraining,
        ShimStage::Reference,
        reference,
        candidates,
    );
    assert(candidates[0].1 == generation);
    assert(candidates[1].1 == optimization);
}

/// A confirmation matches exactly when the accepted build and its rebuild have inputs, and they
/// are the same.
pub proof fn law_confirmations_compare_the_rebuild(
    optimization: Option<StageView>,
    confirmation: Option<StageView>,
)
    ensures
        confirmation_decision(optimization, confirmation).matched <==> {
            &&& optimization is Some
            &&& confirmation is Some
            &&& same_stage_inputs(optimization->0, confirmation->0)
        },
        confirmation_decision(optimization, confirmation).scope == ParityScope::PgoConfirmation,
{
    let candidates = seq![(ShimStage::Confirmation, confirmation)];
    law_matches_mean_same_inputs_everywhere(
        ParityScope::PgoConfirmation,
        ShimStage::Use,
        optimization,
        candidates,
    );
    assert(candidates[0].1 == confirmation);
}

proof fn lemma_occurrences_count(values: Seq<Seq<char>>, wanted: Seq<char>)
    ensures
        occurrences(values, wanted) == values.to_multiset().count(wanted),
    decreases values.len(),
{
    broadcast use vstd::seq_lib::group_to_multiset_ensures;

    if values.len() > 0 {
        lemma_occurrences_count(values.drop_last(), wanted);
        assert(values =~= values.drop_last().push(values.last()));
    } else {
        values.to_multiset_ensures();
        if values.to_multiset().count(wanted) > 0 {
            assert(values.contains(wanted));
        }
    }
}

proof fn lemma_holds_more(left: Seq<Seq<char>>, right: Seq<Seq<char>>)
    ensures
        holds_more(left, right) <==> exists|wanted: Seq<char>|
            #[trigger] left.to_multiset().count(wanted) > right.to_multiset().count(wanted),
{
    assert forall|wanted: Seq<char>| true implies #[trigger] occurrences(left, wanted)
        == left.to_multiset().count(wanted) && occurrences(right, wanted)
        == right.to_multiset().count(wanted) by {
        lemma_occurrences_count(left, wanted);
        lemma_occurrences_count(right, wanted);
    }
    if exists|wanted: Seq<char>|
        #[trigger] left.to_multiset().count(wanted) > right.to_multiset().count(wanted) {
        let wanted = choose|wanted: Seq<char>|
            #[trigger] left.to_multiset().count(wanted) > right.to_multiset().count(wanted);
        assert(occurrences(left, wanted) > occurrences(right, wanted));
    }
    if holds_more(left, right) {
        let wanted = choose|wanted: Seq<char>|
            #[trigger] occurrences(left, wanted) > occurrences(right, wanted);
        assert(left.to_multiset().count(wanted) > right.to_multiset().count(wanted));
    }
}

proof fn lemma_class_texts()
    ensures
        "crate_kind_changed"@ != "artifact_extra_filename_changed"@,
        "crate_kind_changed"@ != "argument_count"@,
        "crate_kind_changed"@ != "argument_removed"@,
        "crate_kind_changed"@ != "argument_added"@,
        "crate_kind_changed"@ != "argument_order"@,
        "artifact_extra_filename_changed"@ != "argument_count"@,
        "artifact_extra_filename_changed"@ != "argument_removed"@,
        "artifact_extra_filename_changed"@ != "argument_added"@,
        "artifact_extra_filename_changed"@ != "argument_order"@,
        "argument_count"@ != "argument_removed"@,
        "argument_count"@ != "argument_added"@,
        "argument_count"@ != "argument_order"@,
        "argument_removed"@ != "argument_added"@,
        "argument_removed"@ != "argument_order"@,
        "argument_added"@ != "argument_order"@,
{
    reveal_strlit("crate_kind_changed");
    reveal_strlit("artifact_extra_filename_changed");
    reveal_strlit("argument_count");
    reveal_strlit("argument_removed");
    reveal_strlit("argument_added");
    reveal_strlit("argument_order");
    assert("crate_kind_changed"@.len() == 18);
    assert("artifact_extra_filename_changed"@.len() == 31);
    assert("argument_count"@.len() == 14);
    assert("argument_removed"@.len() == 16);
    assert("argument_added"@.len() == 14);
    assert("argument_order"@.len() == 14);
    assert("argument_count"@[9] != "argument_order"@[9]);
    assert("argument_count"@[9] != "argument_added"@[9]);
    assert("argument_added"@[9] != "argument_order"@[9]);
}

/// Whether a list of differences holds one of a class for a crate.
pub open spec fn reports(
    differences: Seq<DifferenceView>,
    class: Seq<char>,
    comparison: Seq<char>,
    crate_name: Option<Seq<char>>,
) -> bool {
    differences.contains((DifferenceView { class, comparison, crate_name }))
}

/// Two units of the same crate are reported under each class that applies and no other: their
/// kinds, their artifact names, how many arguments they have, arguments that only one of them has
/// often enough, and otherwise the order of their arguments.
pub proof fn law_unit_differences_name_what_changed(
    comparison: Seq<char>,
    left: UnitView,
    right: UnitView,
)
    ensures
        ({
            let found = unit_differences(comparison, left, right);
            let name = Some(left.crate_name);
            let before = left.argument_digests.to_multiset();
            let after = right.argument_digests.to_multiset();
            let removed = exists|text: Seq<char>| #[trigger] before.count(text) > after.count(text);
            let added = exists|text: Seq<char>| #[trigger] after.count(text) > before.count(text);
            &&& reports(found, "crate_kind_changed"@, comparison, name) <==> left.crate_types
                != right.crate_types
            &&& reports(found, "artifact_extra_filename_changed"@, comparison, name)
                <==> left.extra_filename != right.extra_filename
            &&& reports(found, "argument_count"@, comparison, name) <==> left.argument_digests.len()
                != right.argument_digests.len()
            &&& reports(found, "argument_removed"@, comparison, name) <==> removed
            &&& reports(found, "argument_added"@, comparison, name) <==> added
            &&& reports(found, "argument_order"@, comparison, name) <==> left.argument_digests
                != right.argument_digests && !removed && !added
        }),
{
    lemma_class_texts();
    lemma_holds_more(left.argument_digests, right.argument_digests);
    lemma_holds_more(right.argument_digests, left.argument_digests);
    let found = unit_differences(comparison, left, right);
    let name = Some(left.crate_name);
    let changed = left.argument_digests != right.argument_digests;
    let removed = holds_more(left.argument_digests, right.argument_digests);
    let added = holds_more(right.argument_digests, left.argument_digests);
    let kind = when(
        left.crate_types != right.crate_types,
        difference("crate_kind_changed"@, comparison, name),
    );
    let file = when(
        left.extra_filename != right.extra_filename,
        difference("artifact_extra_filename_changed"@, comparison, name),
    );
    let counted = when(
        left.argument_digests.len() != right.argument_digests.len(),
        difference("argument_count"@, comparison, name),
    );
    let lost = when(changed && removed, difference("argument_removed"@, comparison, name));
    let gained = when(changed && added, difference("argument_added"@, comparison, name));
    let order = when(
        changed && !removed && !added,
        difference("argument_order"@, comparison, name),
    );
    assert(found =~= kind + file + counted + lost + gained + order);
    lemma_contains_join(kind + file + counted + lost + gained, order);
    lemma_contains_join(kind + file + counted + lost, gained);
    lemma_contains_join(kind + file + counted, lost);
    lemma_contains_join(kind + file, counted);
    lemma_contains_join(kind, file);
    lemma_contains_one(kind);
    lemma_contains_one(file);
    lemma_contains_one(counted);
    lemma_contains_one(lost);
    lemma_contains_one(gained);
    lemma_contains_one(order);
}

proof fn lemma_contains_join(first: Seq<DifferenceView>, second: Seq<DifferenceView>)
    ensures
        forall|item: DifferenceView|
            #![trigger (first + second).contains(item)]
            (first + second).contains(item) <==> first.contains(item) || second.contains(item),
{
    assert forall|item: DifferenceView|
        #![trigger (first + second).contains(item)]
        (first + second).contains(item) <==> first.contains(item) || second.contains(item) by {
        if first.contains(item) {
            let i = choose|i: int| 0 <= i < first.len() && first[i] == item;
            assert((first + second)[i] == item);
        }
        if second.contains(item) {
            let i = choose|i: int| 0 <= i < second.len() && second[i] == item;
            assert((first + second)[first.len() + i] == item);
        }
    }
}

proof fn lemma_contains_one(items: Seq<DifferenceView>)
    requires
        items.len() <= 1,
    ensures
        forall|item: DifferenceView|
            #[trigger] items.contains(item) <==> items.len() == 1 && items[0] == item,
{
}

proof fn lemma_pairs_reported(
    comparison: Seq<char>,
    left: Seq<UnitView>,
    right: Seq<UnitView>,
    count: int,
    index: int,
    item: DifferenceView,
)
    requires
        0 <= index < count <= left.len(),
        partner(right, identity_of(left[index]), 0) is Some,
        unit_differences(
            comparison,
            left[index],
            right[partner(right, identity_of(left[index]), 0)->0],
        ).contains(item),
    ensures
        pair_differences(comparison, left, right, count).contains(item),
    decreases count,
{
    let earlier = pair_differences(comparison, left, right, count - 1);
    match partner(right, identity_of(left[count - 1]), 0) {
        Some(place) => {
            lemma_contains_join(
                earlier,
                unit_differences(comparison, left[count - 1], right[place]),
            );
        },
        None => {},
    }
    if index < count - 1 {
        lemma_pairs_reported(comparison, left, right, count - 1, index, item);
    }
}

/// Whether no two units of a stage have the same crate name and metadata.
pub open spec fn units_are_told_apart(units: Seq<UnitView>) -> bool {
    forall|i: int, j: int|
        0 <= i < j < units.len() ==> {
            ||| (#[trigger] units[i]).crate_name != (#[trigger] units[j]).crate_name
            ||| or_nothing(units[i].metadata) != or_nothing(units[j].metadata)
        }
}

/// A text, or nothing where there is none.
pub open spec fn or_nothing(text: Option<Seq<char>>) -> Seq<char> {
    match text {
        Some(found) => found,
        None => Seq::empty(),
    }
}

/// A comparison reports every difference between units that have the same crate name and the same
/// metadata, a changed tool, and a different number of units.
pub proof fn law_comparisons_report_every_unit(
    left: StageView,
    right: StageView,
    first: int,
    second: int,
    item: DifferenceView,
)
    requires
        units_are_told_apart(left.units),
        units_are_told_apart(right.units),
        0 <= first < left.units.len(),
        0 <= second < right.units.len(),
        left.units[first].crate_name == right.units[second].crate_name,
        or_nothing(left.units[first].metadata) == or_nothing(right.units[second].metadata),
        unit_differences(
            stage_label(left.stage) + "_vs_"@ + stage_label(right.stage),
            left.units[first],
            right.units[second],
        ).contains(item),
    ensures
        compared(left, right).contains(item),
{
    let comparison = comparison_name(left, right);
    lemma_told_apart(left.units);
    lemma_told_apart(right.units);
    lemma_partner(right.units, identity_of(left.units[first]), 0);
    let place = partner(right.units, identity_of(left.units[first]), 0)->0;
    if place < second {
        assert(identity_of(right.units[place]) == identity_of(right.units[second]));
    } else if second < place {
        assert(identity_of(right.units[second]) == identity_of(right.units[place]));
    }
    let count = left.units.len() as int;
    lemma_pairs_reported(comparison, left.units, right.units, count, first, item);
    lemma_compared_parts(left, right);
}

proof fn lemma_told_apart(units: Seq<UnitView>)
    ensures
        units_are_told_apart(units) <==> !duplicate_identity(units),
{
    if duplicate_identity(units) {
        let (i, j) = choose|i: int, j: int|
            0 <= i < j < units.len() && identity_of(#[trigger] units[i]) == identity_of(
                #[trigger] units[j],
            );
        assert(units[i].crate_name == units[j].crate_name);
    }
    if !units_are_told_apart(units) {
        let (i, j) = choose|i: int, j: int|
            0 <= i < j < units.len() && !{
                ||| (#[trigger] units[i]).crate_name != (#[trigger] units[j]).crate_name
                ||| or_nothing(units[i].metadata) != or_nothing(units[j].metadata)
            };
        assert(identity_of(units[i]) == identity_of(units[j]));
    }
}

proof fn lemma_compared_parts(left: StageView, right: StageView)
    requires
        !duplicate_identity(left.units),
        !duplicate_identity(right.units),
    ensures
        ({
            let comparison = comparison_name(left, right);
            let count = left.units.len() as int;
            let (rest, paired) = leftovers(comparison, left.units, right.units, count);
            forall|item: DifferenceView|
                #![trigger compared(left, right).contains(item)]
                compared(left, right).contains(item) <==> {
                    ||| when(
                        tools_differ(left, right),
                        difference(TOOL_CHANGED@, comparison, None),
                    ).contains(item)
                    ||| when(
                        left.units.len() != right.units.len(),
                        difference(CRATE_COUNT@, comparison, None),
                    ).contains(item)
                    ||| pair_differences(comparison, left.units, right.units, count).contains(item)
                    ||| rest.contains(item)
                    ||| added_crates(
                        comparison,
                        right.units,
                        paired,
                        right.units.len() as int,
                    ).contains(item)
                }
        }),
{
    let comparison = comparison_name(left, right);
    let count = left.units.len() as int;
    let (rest, paired) = leftovers(comparison, left.units, right.units, count);
    let tools = when(tools_differ(left, right), difference(TOOL_CHANGED@, comparison, None));
    let counted = when(
        left.units.len() != right.units.len(),
        difference(CRATE_COUNT@, comparison, None),
    );
    let pairs = pair_differences(comparison, left.units, right.units, count);
    let added = added_crates(comparison, right.units, paired, right.units.len() as int);
    lemma_contains_join(tools, counted);
    lemma_contains_join(tools + counted, pairs);
    lemma_contains_join(tools + counted + pairs, rest);
    lemma_contains_join(tools + counted + pairs + rest, added);
    assert(compared(left, right) == tools + counted + pairs + rest + added);
}

/// A comparison reports a changed tool wherever the compiler, its version or the shim differs, an
/// ambiguous identity wherever a crate is given twice, and otherwise a different number of units.
pub proof fn law_comparisons_report_stage_changes(left: StageView, right: StageView)
    ensures
        ({
            let comparison = stage_label(left.stage) + "_vs_"@ + stage_label(right.stage);
            let found = compared(left, right);
            let apart = units_are_told_apart(left.units) && units_are_told_apart(right.units);
            &&& parts(left.real_rustc) != parts(right.real_rustc) || left.real_rustc_version
                != right.real_rustc_version || left.shim_sha256 != right.shim_sha256 ==> reports(
                found,
                "tool_changed"@,
                comparison,
                None,
            )
            &&& !apart ==> reports(found, "ambiguous_crate_identity"@, comparison, None)
            &&& apart && left.units.len() != right.units.len() ==> reports(
                found,
                "crate_count"@,
                comparison,
                None,
            )
        }),
{
    lemma_told_apart(left.units);
    lemma_told_apart(right.units);
    let comparison = comparison_name(left, right);
    let tools = when(tools_differ(left, right), difference(TOOL_CHANGED@, comparison, None));
    if tools_differ(left, right) {
        assert(tools[0] == difference(TOOL_CHANGED@, comparison, None));
        assert(tools.contains(difference(TOOL_CHANGED@, comparison, None)));
    }
    if duplicate_identity(left.units) || duplicate_identity(right.units) {
        let item = difference(AMBIGUOUS_CRATE_IDENTITY@, comparison, None);
        let whole = tools.push(item);
        assert(compared(left, right) == whole);
        assert(whole[tools.len() as int] == item);
        if tools_differ(left, right) {
            assert(whole[0] == tools[0]);
        }
    } else {
        lemma_compared_parts(left, right);
        let item = difference(CRATE_COUNT@, comparison, None);
        let counted = when(left.units.len() != right.units.len(), item);
        if left.units.len() != right.units.len() {
            assert(counted[0] == item);
            assert(counted.contains(item));
        }
        if tools_differ(left, right) {
            assert(compared(left, right).contains(difference(TOOL_CHANGED@, comparison, None)));
        }
        if left.units.len() != right.units.len() {
            assert(compared(left, right).contains(item));
        }
    }
}

proof fn lemma_no_counterpart(right: Seq<UnitView>, paired: Seq<bool>, name: Seq<char>, count: int)
    requires
        forall|i: int| 0 <= i < right.len() ==> (#[trigger] right[i]).crate_name != name,
    ensures
        counterpart_count(right, paired, name, count) == 0,
    decreases count,
{
    if count > 0 {
        lemma_no_counterpart(right, paired, name, count - 1);
    }
}

proof fn lemma_missing_reported(
    comparison: Seq<char>,
    left: Seq<UnitView>,
    right: Seq<UnitView>,
    count: int,
    index: int,
)
    requires
        0 <= index < count <= left.len(),
        forall|i: int|
            0 <= i < right.len() ==> (#[trigger] right[i]).crate_name != left[index].crate_name,
    ensures
        leftovers(comparison, left, right, count).0.contains(
            difference(CRATE_MISSING@, comparison, Some(left[index].crate_name)),
        ),
    decreases count,
{
    let item = difference(CRATE_MISSING@, comparison, Some(left[index].crate_name));
    let (earlier, paired) = leftovers(comparison, left, right, count - 1);
    let now = leftovers(comparison, left, right, count).0;
    let unit = left[count - 1];
    lemma_partner(right, identity_of(unit), 0);
    if index < count - 1 {
        lemma_missing_reported(comparison, left, right, count - 1, index);
        let i = choose|i: int| 0 <= i < earlier.len() && earlier[i] == item;
        assert(now[i] == item);
    } else {
        if partner(right, identity_of(unit), 0) is Some {
            assert(right[partner(right, identity_of(unit), 0)->0].crate_name == unit.crate_name);
        }
        lemma_no_counterpart(right, paired, unit.crate_name, right.len() as int);
        assert(now[earlier.len() as int] == item);
    }
}

/// A comparison of stages whose units are told apart reports as missing every crate of the first
/// stage whose name the second stage does not have at all.
pub proof fn law_missing_crates_are_reported(left: StageView, right: StageView, index: int)
    requires
        units_are_told_apart(left.units),
        units_are_told_apart(right.units),
        0 <= index < left.units.len(),
        forall|i: int|
            0 <= i < right.units.len() ==> (#[trigger] right.units[i]).crate_name
                != left.units[index].crate_name,
    ensures
        reports(
            compared(left, right),
            "crate_missing"@,
            stage_label(left.stage) + "_vs_"@ + stage_label(right.stage),
            Some(left.units[index].crate_name),
        ),
{
    lemma_told_apart(left.units);
    lemma_told_apart(right.units);
    let comparison = comparison_name(left, right);
    lemma_missing_reported(comparison, left.units, right.units, left.units.len() as int, index);
    lemma_compared_parts(left, right);
}

proof fn lemma_unpaired_stays(
    comparison: Seq<char>,
    left: Seq<UnitView>,
    right: Seq<UnitView>,
    count: int,
    wanted: int,
)
    requires
        0 <= count <= left.len(),
        0 <= wanted < right.len(),
        forall|i: int|
            0 <= i < left.len() ==> (#[trigger] left[i]).crate_name != right[wanted].crate_name,
    ensures
        leftovers(comparison, left, right, count).1.len() == right.len(),
        !leftovers(comparison, left, right, count).1[wanted],
    decreases count,
{
    lemma_paired(left, right, left.len() as int);
    let first = paired_by_identity(left, right, left.len() as int);
    if count == 0 {
        if first[wanted] {
            let i = choose|i: int|
                0 <= i < left.len() && partner(right, identity_of(#[trigger] left[i]), 0) == Some(
                    wanted,
                );
            lemma_partner(right, identity_of(left[i]), 0);
            assert(left[i].crate_name == right[wanted].crate_name);
        }
    } else {
        lemma_unpaired_stays(comparison, left, right, count - 1, wanted);
        let (earlier, paired) = leftovers(comparison, left, right, count - 1);
        let unit = left[count - 1];
        let total = right.len() as int;
        lemma_last_counterpart(right, paired, unit.crate_name, total);
    }
}

proof fn lemma_last_counterpart(
    right: Seq<UnitView>,
    paired: Seq<bool>,
    name: Seq<char>,
    count: int,
)
    requires
        count <= right.len(),
    ensures
        counterpart_count(right, paired, name, count) >= 0,
        counterpart_count(right, paired, name, count) > 0 ==> is_counterpart(
            right,
            paired,
            name,
            last_counterpart(right, paired, name, count),
        ),
    decreases count,
{
    if count > 0 {
        lemma_last_counterpart(right, paired, name, count - 1);
    }
}

proof fn lemma_added_reported(
    comparison: Seq<char>,
    right: Seq<UnitView>,
    paired: Seq<bool>,
    count: int,
    wanted: int,
)
    requires
        0 <= wanted < count <= right.len(),
        !paired[wanted],
    ensures
        added_crates(comparison, right, paired, count).contains(
            difference(CRATE_ADDED@, comparison, Some(right[wanted].crate_name)),
        ),
    decreases count,
{
    let item = difference(CRATE_ADDED@, comparison, Some(right[wanted].crate_name));
    let earlier = added_crates(comparison, right, paired, count - 1);
    let now = added_crates(comparison, right, paired, count);
    if wanted < count - 1 {
        lemma_added_reported(comparison, right, paired, count - 1, wanted);
        let i = choose|i: int| 0 <= i < earlier.len() && earlier[i] == item;
        assert(now[i] == item);
    } else {
        assert(now[earlier.len() as int] == item);
    }
}

/// A comparison of stages whose units are told apart reports as added every crate of the second
/// stage whose name the first stage does not have at all.
pub proof fn law_added_crates_are_reported(left: StageView, right: StageView, index: int)
    requires
        units_are_told_apart(left.units),
        units_are_told_apart(right.units),
        0 <= index < right.units.len(),
        forall|i: int|
            0 <= i < left.units.len() ==> (#[trigger] left.units[i]).crate_name
                != right.units[index].crate_name,
    ensures
        reports(
            compared(left, right),
            "crate_added"@,
            stage_label(left.stage) + "_vs_"@ + stage_label(right.stage),
            Some(right.units[index].crate_name),
        ),
{
    lemma_told_apart(left.units);
    lemma_told_apart(right.units);
    let comparison = comparison_name(left, right);
    let count = left.units.len() as int;
    lemma_unpaired_stays(comparison, left.units, right.units, count, index);
    let paired = leftovers(comparison, left.units, right.units, count).1;
    lemma_added_reported(comparison, right.units, paired, right.units.len() as int, index);
    lemma_compared_parts(left, right);
}

proof fn lemma_all_contain(
    anchor_stage: ShimStage,
    anchor: StageView,
    candidates: Seq<(ShimStage, Option<StageView>)>,
    count: int,
    index: int,
    item: DifferenceView,
)
    requires
        0 <= index < count <= candidates.len(),
        candidates[index].1 matches Some(found) && compared(anchor, found).contains(item),
    ensures
        all_differences(anchor_stage, Some(anchor), candidates, count).contains(item),
    decreases count,
{
    let earlier = all_differences(anchor_stage, Some(anchor), candidates, count - 1);
    let now = all_differences(anchor_stage, Some(anchor), candidates, count);
    match candidates[count - 1].1 {
        Some(found) => {
            lemma_contains_join(earlier, compared(anchor, found));
        },
        None => {},
    }
    if index < count - 1 {
        lemma_all_contain(anchor_stage, anchor, candidates, count - 1, index, item);
        let i = choose|i: int| 0 <= i < earlier.len() && earlier[i] == item;
        assert(now[i] == item);
    }
}

/// A decision lists every difference between the anchor and each of its candidates, up to the
/// bounded number of entries, and says whether entries are missing.
pub proof fn law_decisions_list_every_comparison(
    scope: ParityScope,
    anchor_stage: ShimStage,
    anchor: StageView,
    candidates: Seq<(ShimStage, Option<StageView>)>,
    index: int,
    item: DifferenceView,
)
    requires
        0 <= index < candidates.len(),
        candidates[index].1 matches Some(found) && compared(anchor, found).contains(item),
    ensures
        ({
            let record = decision(scope, anchor_stage, Some(anchor), candidates);
            &&& !record.matched
            &&& record.differences.contains(item) || (record.differences_truncated
                && record.differences.len() == 64)
        }),
{
    lemma_all_contain(
        anchor_stage,
        anchor,
        candidates,
        candidates.len() as int,
        index,
        item,
    );
}

/// A unit is made of every target compilation of the evidence, and of nothing else, whatever order
/// the records come in.
pub proof fn law_units_are_the_target_compilations(
    interposition: InterpositionRecord,
    aggregate: CaptureAggregate,
)
    requires
        aggregate.records@.len() <= usize::MAX,
    ensures
        ({
            let inputs = inputs_of_evidence(interposition, aggregate);
            let targets = aggregate.records@.filter(
                |record: CaptureRecord| record.class == InvocationClass::TargetCompile,
            );
            &&& inputs.units.len() == targets.len()
            &&& inputs.units.to_multiset() == targets.map_values(
                |record: CaptureRecord|
                    UnitView {
                        crate_name: or_nothing(optional_text(record.crate_name)),
                        metadata: optional_text(record.metadata),
                        crate_types: texts(record.crate_types@),
                        extra_filename: optional_text(record.extra_filename),
                        argument_digests: texts(record.argument_digests@),
                        normalized_digest: record.normalized_digest@,
                    },
            ).to_multiset()
            &&& inputs.stage == interposition.stage
            &&& inputs.real_rustc == interposition.real_rustc@
            &&& inputs.real_rustc_version == interposition.real_rustc_version@
            &&& inputs.shim_sha256 == interposition.shim_sha256@
        }),
{
    let records = aggregate.records@;
    let is_target = |record: CaptureRecord| record.class == InvocationClass::TargetCompile;
    let as_unit = |record: CaptureRecord|
        UnitView {
            crate_name: or_nothing(optional_text(record.crate_name)),
            metadata: optional_text(record.metadata),
            crate_types: texts(record.crate_types@),
            extra_filename: optional_text(record.extra_filename),
            argument_digests: texts(record.argument_digests@),
            normalized_digest: record.normalized_digest@,
        };
    let units = units_of_records(records, records.len() as int);
    lemma_units_filtered(records, records.len() as int, is_target, as_unit);
    assert(records.take(records.len() as int) =~= records);
    assert(units == records.filter(is_target).map_values(as_unit));
    lemma_byte_order_exists(metadata_keys(units));
    let by_metadata = picked(units, byte_order(metadata_keys(units)));
    lemma_picked_multiset(units, byte_order(metadata_keys(units)));
    lemma_byte_order_exists(name_keys(by_metadata));
    lemma_picked_multiset(by_metadata, byte_order(name_keys(by_metadata)));
}

proof fn lemma_units_filtered(
    records: Seq<CaptureRecord>,
    count: int,
    is_target: spec_fn(CaptureRecord) -> bool,
    as_unit: spec_fn(CaptureRecord) -> UnitView,
)
    requires
        0 <= count <= records.len(),
        forall|record: CaptureRecord|
            #[trigger] is_target(record) == (record.class == InvocationClass::TargetCompile),
        forall|record: CaptureRecord| #[trigger] as_unit(record) == unit_of_record(record),
    ensures
        units_of_records(records, count) == records.take(count).filter(is_target).map_values(
            as_unit,
        ),
    decreases count,
{
    reveal(Seq::filter);
    if count > 0 {
        lemma_units_filtered(records, count - 1, is_target, as_unit);
        let now = records.take(count);
        assert(now.drop_last() =~= records.take(count - 1));
        assert(now.last() == records[count - 1]);
        let before = records.take(count - 1).filter(is_target);
        if is_target(records[count - 1]) {
            assert(now.filter(is_target) == before.push(records[count - 1]));
            assert(before.push(records[count - 1]).map_values(as_unit) =~= before.map_values(
                as_unit,
            ).push(as_unit(records[count - 1])));
        }
    } else {
        assert(records.take(0).filter(is_target).map_values(as_unit) =~= Seq::empty());
    }
}

/// The classes of differences are named each once, and none that stands on a difference is missing.
pub proof fn law_every_class_is_named_once(differences: Seq<DifferenceView>)
    ensures
        ({
            let found = distinct_classes(differences);
            &&& forall|i: int|
                0 <= i < differences.len() ==> found.contains((#[trigger] differences[i]).class)
            &&& forall|i: int|
                0 <= i < found.len() ==> exists|j: int|
                    0 <= j < differences.len() && (#[trigger] differences[j]).class
                        == #[trigger] found[i]
            &&& found.no_duplicates()
        }),
    decreases differences.len(),
{
    if differences.len() > 0 {
        let shorter = differences.drop_last();
        let earlier = distinct_classes(shorter);
        let found = distinct_classes(differences);
        let last = differences.last();
        law_every_class_is_named_once(shorter);
        assert forall|i: int| 0 <= i < differences.len() implies found.contains(
            (#[trigger] differences[i]).class,
        ) by {
            if i < shorter.len() {
                assert(shorter[i] == differences[i]);
                let k = choose|k: int| 0 <= k < earlier.len() && earlier[k] == differences[i].class;
                assert(found[k] == differences[i].class);
            } else if !earlier.contains(last.class) {
                assert(found[found.len() - 1] == last.class);
            }
        }
        assert forall|i: int| 0 <= i < found.len() implies exists|j: int|
            0 <= j < differences.len() && (#[trigger] differences[j]).class
                == #[trigger] found[i] by {
            if i < earlier.len() {
                assert(found[i] == earlier[i]);
                let j = choose|j: int|
                    0 <= j < shorter.len() && (#[trigger] shorter[j]).class == earlier[i];
                assert(differences[j] == shorter[j]);
            } else {
                assert(differences[differences.len() - 1].class == found[i]);
            }
        }
        if !earlier.contains(last.class) {
            assert forall|i: int, j: int| 0 <= i < found.len() && 0 <= j < found.len() && i
                != j implies found[i] != found[j] by {
                if i < earlier.len() && j < earlier.len() {
                    assert(earlier[i] != earlier[j]);
                } else if i < earlier.len() {
                    assert(earlier.contains(earlier[i]));
                } else if j < earlier.len() {
                    assert(earlier.contains(earlier[j]));
                }
            }
        }
    }
}

/// The crate that is named first is that of the first difference that names one.
pub proof fn law_the_first_named_crate_is_shown(differences: Seq<DifferenceView>, index: int)
    requires
        0 <= index < differences.len(),
        differences[index].crate_name is Some,
        forall|i: int| 0 <= i < index ==> (#[trigger] differences[i]).crate_name is None,
    ensures
        first_crate(differences, 0) == differences[index].crate_name,
{
    lemma_first_crate(differences, 0, index);
}

proof fn lemma_first_crate(differences: Seq<DifferenceView>, from: int, index: int)
    requires
        0 <= from <= index < differences.len(),
        differences[index].crate_name is Some,
        forall|i: int| 0 <= i < index ==> (#[trigger] differences[i]).crate_name is None,
    ensures
        first_crate(differences, from) == differences[index].crate_name,
    decreases index - from,
{
    if from < index {
        assert(differences[from].crate_name is None);
        lemma_first_crate(differences, from + 1, index);
    }
}

} // verus!
