//! Validation and aggregation of one stage's compiler evidence.

use vstd::prelude::*;
use vstd::slice::slice_to_vec;
use vstd::string::*;
use vstd::utf8::*;

use crate::classify::InvocationClass;
use crate::hash::{frame, framed_digest, sha256_text};
use crate::interposition::{
    identifiers_of, is_compiler_input_reason, InjectionView, InterpositionPlan, ShimStage,
    CAPTURE_BYTE_LIMIT, CAPTURE_CORRUPT_REASON, CAPTURE_LIMIT_REASON, CAPTURE_MISSING_REASON,
    FIELD_LIMIT, INJECTION_UNEXPECTED_REASON, INPUT_AMBIGUITY_REASON, INPUT_CONFLICT_REASON,
    NORMALIZATION_VERSION, PROTOCOL, PROTOCOL_FAILURE_PREFIX, PROTOCOL_FAILURE_REASON,
    RECORD_BYTE_LIMIT, RECORD_LIMIT,
};
use crate::order::{
    arrange, byte_order, bytes_le, is_byte_order, key_before, lemma_byte_order_exists,
    lemma_bytes_antisymmetric, lemma_picked_multiset, order_keys, picked, sorted_bytes,
};
use crate::paths::{
    is_absolute_path, join, join_path, law_joined_paths_extend_their_base, lies_within, parts,
    parts_below, same_path, starts_with,
};
use crate::shim::{expected_flags, CaptureRecord, CaptureRecordView, ProtocolFailureMarker};
use crate::text::{
    bounded_prefix, bounded_text, byte_len, byte_strings, has_prefix, lemma_bounded_text_fits,
    lemma_encode_injective, same_text, same_texts, text2, texts,
};

verus! {

/// Stable reason and bounded message of one rejected capture set.
#[derive(Debug)]
pub struct CaptureFailure {
    pub reason: &'static str,
    pub message: String,
}

/// A reason and a message.
pub struct Refusal {
    pub reason: Seq<char>,
    pub message: Seq<char>,
}

impl View for CaptureFailure {
    type V = Refusal;

    open spec fn view(&self) -> Refusal {
        Refusal { reason: self.reason@, message: self.message@ }
    }
}

/// A refusal whose message is cut to its bounded length.
pub open spec fn refusal(reason: Seq<char>, message: Seq<char>) -> Refusal {
    Refusal { reason, message: bounded_text(message, FIELD_LIMIT as nat) }
}

impl CaptureFailure {
    pub fn new(reason: &'static str, message: &str) -> (failure: CaptureFailure)
        ensures
            failure@ == refusal(reason@, message@),
    {
        CaptureFailure { reason, message: bounded_prefix(message, FIELD_LIMIT) }
    }
}

/// What inspecting one directory entry gave.
#[derive(Clone, Copy, Debug)]
pub struct EntryStatus {
    pub symlink: bool,
    pub regular: bool,
    pub length: u64,
}

/// What reading one entry as a record gave.
#[derive(Debug)]
pub enum RecordRead {
    Unreadable(String),
    Malformed(String),
    Parsed(CaptureRecord),
}

/// One entry of a capture directory, as it was observed.
#[derive(Debug)]
pub struct CaptureEntry {
    pub name: Vec<u8>,
    pub path: Vec<u8>,
    pub status: Result<EntryStatus, String>,
    /// The entry read as a protocol-failure marker, when that succeeds.
    pub marker: Option<ProtocolFailureMarker>,
    /// The entry read as a capture record.
    pub record: RecordRead,
}

/// One capture directory, as it was observed.
#[derive(Debug)]
pub struct CaptureListing {
    /// The canonical path of the directory, or why there is none.
    pub root: Result<Vec<u8>, String>,
    /// The entries, or why they could not be listed.
    pub entries: Result<Vec<Result<CaptureEntry, String>>, String>,
}

/// Validated aggregate of one stage's compiler evidence.
#[derive(Debug)]
pub struct CaptureAggregate {
    pub protocol: &'static str,
    pub normalization: u32,
    pub stage: ShimStage,
    pub record_count: usize,
    pub capture_bytes: u64,
    pub target_compilations: usize,
    pub host_compilations: usize,
    pub probes: usize,
    pub other_invocations: usize,
    pub injected_invocations: usize,
    pub injected_flags: Vec<&'static str>,
    pub capture_digest: String,
    pub records: Vec<CaptureRecord>,
}

/// What an aggregate says.
pub struct CaptureAggregateView {
    pub protocol: Seq<char>,
    pub normalization: u32,
    pub stage: ShimStage,
    pub record_count: int,
    pub capture_bytes: int,
    pub target_compilations: int,
    pub host_compilations: int,
    pub probes: int,
    pub other_invocations: int,
    pub injected_invocations: int,
    pub injected_flags: Seq<Seq<char>>,
    pub capture_digest: Seq<char>,
    pub records: Seq<CaptureRecord>,
}

impl View for CaptureAggregate {
    type V = CaptureAggregateView;

    open spec fn view(&self) -> CaptureAggregateView {
        CaptureAggregateView {
            protocol: self.protocol@,
            normalization: self.normalization,
            stage: self.stage,
            record_count: self.record_count as int,
            capture_bytes: self.capture_bytes as int,
            target_compilations: self.target_compilations as int,
            host_compilations: self.host_compilations as int,
            probes: self.probes as int,
            other_invocations: self.other_invocations as int,
            injected_invocations: self.injected_invocations as int,
            injected_flags: self.injected_flags@.map_values(|flag: &'static str| flag@),
            capture_digest: self.capture_digest@,
            records: self.records@,
        }
    }
}

/// Why a protocol-failure marker rejects its capture set.
pub open spec fn marker_refusal(marker: Option<ProtocolFailureMarker>) -> Refusal {
    if marker is Some && marker->0.protocol@ == PROTOCOL@ && marker->0.reason@
        == PROTOCOL_FAILURE_REASON@ {
        refusal(
            PROTOCOL_FAILURE_REASON@,
            "The private compiler shim aborted before executing rustc: "@ + marker->0.message@,
        )
    } else {
        refusal(
            CAPTURE_CORRUPT_REASON@,
            "A stage protocol-failure marker could not be read."@,
        )
    }
}

/// The record that an entry holds, or why it is refused.
pub open spec fn record_outcome(path: Seq<u8>, root: Seq<u8>, read: RecordRead) -> Result<
    CaptureRecord,
    Refusal,
> {
    match read {
        RecordRead::Unreadable(error) => Err(
            refusal(
                CAPTURE_CORRUPT_REASON@,
                "A stage capture record could not be read: "@ + error@,
            ),
        ),
        RecordRead::Malformed(error) => Err(
            refusal(
                CAPTURE_CORRUPT_REASON@,
                "A stage capture record could not be parsed: "@ + error@,
            ),
        ),
        RecordRead::Parsed(record) => if record.protocol@ != PROTOCOL@ || record.normalization
            != NORMALIZATION_VERSION {
            Err(
                refusal(
                    CAPTURE_CORRUPT_REASON@,
                    "A stage capture record used an unsupported protocol version."@,
                ),
            )
        } else if parts(join_path(root, encode_utf8(record.record_id@ + ".json"@))) != parts(path) {
            Err(
                refusal(
                    CAPTURE_CORRUPT_REASON@,
                    "A stage capture record identity does not match its file name."@,
                ),
            )
        } else {
            Ok(record)
        },
    }
}

/// The record that one listed entry contributes, or why the entry rejects the set.
pub open spec fn entry_outcome(root: Seq<u8>, entry: Result<CaptureEntry, String>) -> Result<
    CaptureRecord,
    Refusal,
> {
    match entry {
        Err(error) => Err(
            refusal(
                CAPTURE_MISSING_REASON@,
                "A stage capture entry could not be read: "@ + error@,
            ),
        ),
        Ok(found) => match found.status {
            Err(error) => Err(
                refusal(
                    CAPTURE_CORRUPT_REASON@,
                    "A stage capture entry could not be inspected: "@ + error@,
                ),
            ),
            Ok(status) => if status.symlink || !status.regular {
                Err(
                    refusal(
                        CAPTURE_CORRUPT_REASON@,
                        "A stage capture entry is a symlink or not a regular file."@,
                    ),
                )
            } else if !lies_within(found.path@, root) {
                Err(
                    refusal(
                        CAPTURE_CORRUPT_REASON@,
                        "A stage capture entry escaped its canonical capture root."@,
                    ),
                )
            } else if status.length > RECORD_BYTE_LIMIT {
                Err(
                    refusal(
                        CAPTURE_LIMIT_REASON@,
                        "A stage capture record exceeded its bounded size."@,
                    ),
                )
            } else if encode_utf8(PROTOCOL_FAILURE_PREFIX@).is_prefix_of(found.name@) {
                Err(marker_refusal(found.marker))
            } else {
                record_outcome(found.path@, root, found.record)
            },
        },
    }
}

/// The size of a listed entry.
pub open spec fn entry_length(entry: Result<CaptureEntry, String>) -> int {
    match entry {
        Ok(found) => match found.status {
            Ok(status) => status.length as int,
            Err(_) => 0,
        },
        Err(_) => 0,
    }
}

/// The records and the byte count of the first `count` entries, or the first refusal.
pub open spec fn scan_outcome(
    root: Seq<u8>,
    entries: Seq<Result<CaptureEntry, String>>,
    count: int,
) -> Result<(Seq<CaptureRecord>, int), Refusal>
    decreases count,
{
    if count <= 0 {
        Ok((Seq::empty(), 0))
    } else {
        match scan_outcome(root, entries, count - 1) {
            Err(found) => Err(found),
            Ok((records, bytes)) => match entry_outcome(root, entries[count - 1]) {
                Err(found) => Err(found),
                Ok(record) => if count > RECORD_LIMIT {
                    Err(
                        refusal(
                            CAPTURE_LIMIT_REASON@,
                            "The stage produced more than 10000 capture records."@,
                        ),
                    )
                } else if bytes + entry_length(entries[count - 1]) > CAPTURE_BYTE_LIMIT {
                    Err(
                        refusal(
                            CAPTURE_LIMIT_REASON@,
                            "The stage capture set exceeded 32 MiB."@,
                        ),
                    )
                } else {
                    Ok((records.push(record), bytes + entry_length(entries[count - 1])))
                },
            },
        }
    }
}

/// The identities of records, as bytes.
pub open spec fn identities(records: Seq<CaptureRecord>) -> Seq<Seq<u8>> {
    records.map_values(|record: CaptureRecord| encode_utf8(record.record_id@))
}

/// The records in the order of their identities.
pub open spec fn sorted_records(records: Seq<CaptureRecord>) -> Seq<CaptureRecord> {
    picked(records, byte_order(identities(records)))
}

/// Whether an earlier record declares the identity of the record at `index`.
pub open spec fn repeats_identity(records: Seq<CaptureRecord>, index: int) -> bool {
    exists|i: int| 0 <= i < index && (#[trigger] records[i]).record_id@ == records[index].record_id@
}

/// The first record, at or after `from`, of another stage or with a repeated identity.
pub open spec fn first_set_defect(
    records: Seq<CaptureRecord>,
    stage: ShimStage,
    from: int,
) -> Option<Refusal>
    decreases records.len() - from,
{
    if from < 0 || from >= records.len() {
        None
    } else if records[from].stage != stage {
        Some(
            refusal(
                CAPTURE_CORRUPT_REASON@,
                "A stage capture record belongs to another interposition stage."@,
            ),
        )
    } else if repeats_identity(records, from) {
        Some(
            refusal(
                CAPTURE_CORRUPT_REASON@,
                "Two stage capture records declare the same record identity."@,
            ),
        )
    } else {
        first_set_defect(records, stage, from + 1)
    }
}

/// Why a record that declares a rejection rejects its set.
pub open spec fn declared_rejection(reason: Seq<char>) -> Refusal {
    if reason == INPUT_CONFLICT_REASON@ {
        refusal(
            INPUT_CONFLICT_REASON@,
            "A resolved target compilation already carried a profiling or coverage control."@,
        )
    } else if reason == INPUT_AMBIGUITY_REASON@ {
        refusal(
            INPUT_AMBIGUITY_REASON@,
            "A resolved target compilation had an unsupported argument shape."@,
        )
    } else {
        refusal(
            CAPTURE_CORRUPT_REASON@,
            "A stage capture record declares an unknown rejection reason."@,
        )
    }
}

/// The first declared rejection at or after `from`.
pub open spec fn first_rejection(records: Seq<CaptureRecord>, from: int) -> Option<Refusal>
    decreases records.len() - from,
{
    if from < 0 || from >= records.len() {
        None
    } else {
        match records[from].rejection {
            Some(reason) => Some(declared_rejection(reason@)),
            None => first_rejection(records, from + 1),
        }
    }
}

/// The first record, at or after `from`, with other controls than its class receives.
pub open spec fn first_injection_defect(
    records: Seq<CaptureRecord>,
    expected: Seq<Seq<char>>,
    from: int,
) -> Option<Refusal>
    decreases records.len() - from,
{
    if from < 0 || from >= records.len() {
        None
    } else if records[from].class == InvocationClass::TargetCompile {
        if texts(records[from].injected_flags@) != expected {
            Some(
                refusal(
                    INJECTION_UNEXPECTED_REASON@,
                    "A target compilation did not receive exactly the expected phase controls."@,
                ),
            )
        } else {
            first_injection_defect(records, expected, from + 1)
        }
    } else if records[from].injected_flags@.len() > 0 {
        Some(
            refusal(
                INJECTION_UNEXPECTED_REASON@,
                "A probe or host invocation received a Temper phase control."@,
            ),
        )
    } else {
        first_injection_defect(records, expected, from + 1)
    }
}

/// How many of the first `count` records have this class.
pub open spec fn class_count(
    records: Seq<CaptureRecord>,
    class: InvocationClass,
    count: int,
) -> int
    decreases count,
{
    if count <= 0 {
        0
    } else {
        class_count(records, class, count - 1) + if records[count - 1].class == class {
            1int
        } else {
            0
        }
    }
}

/// The digests of the final arguments, as bytes.
pub open spec fn post_digests(records: Seq<CaptureRecord>) -> Seq<Seq<u8>> {
    records.map_values(|record: CaptureRecord| encode_utf8(record.post_digest@))
}

/// The aggregate of records in identity order, or why they are refused.
pub open spec fn set_outcome(
    stage: ShimStage,
    injection: InjectionView,
    records: Seq<CaptureRecord>,
    bytes: int,
) -> Result<CaptureAggregateView, Refusal> {
    let expected = identifiers_of(injection);
    let total = records.len() as int;
    let targets = class_count(records, InvocationClass::TargetCompile, total);
    match (
        first_set_defect(records, stage, 0),
        first_rejection(records, 0),
        first_injection_defect(records, expected, 0),
    ) {
        (Some(found), _, _) => Err(found),
        (_, Some(found), _) => Err(found),
        (_, _, Some(found)) => Err(found),
        _ => if targets == 0 {
            Err(
                refusal(
                    CAPTURE_MISSING_REASON@,
                    "The stage produced no observed target compilation."@,
                ),
            )
        } else {
            Ok(
                CaptureAggregateView {
                    protocol: PROTOCOL@,
                    normalization: NORMALIZATION_VERSION,
                    stage,
                    record_count: total,
                    capture_bytes: bytes,
                    target_compilations: targets,
                    host_compilations: class_count(records, InvocationClass::HostCompile, total),
                    probes: class_count(records, InvocationClass::Probe, total),
                    other_invocations: class_count(records, InvocationClass::Other, total),
                    injected_invocations: if expected.len() == 0 {
                        0
                    } else {
                        targets
                    },
                    injected_flags: expected,
                    capture_digest: sha256_text(frame(sorted_bytes(post_digests(records)))),
                    records,
                },
            )
        },
    }
}

/// The aggregate of one listed capture directory, or why it is refused.
pub open spec fn collection(
    stage: ShimStage,
    injection: InjectionView,
    claimed: Seq<u8>,
    listing: CaptureListing,
) -> Result<CaptureAggregateView, Refusal> {
    match listing.root {
        Err(error) => Err(
            refusal(
                CAPTURE_MISSING_REASON@,
                "The stage capture directory is unavailable: "@ + error@,
            ),
        ),
        Ok(root) => if parts(root@) != parts(claimed) {
            Err(
                refusal(
                    CAPTURE_CORRUPT_REASON@,
                    "The stage capture directory no longer matches its canonical claim."@,
                ),
            )
        } else {
            match listing.entries {
                Err(error) => Err(
                    refusal(
                        CAPTURE_MISSING_REASON@,
                        "The stage capture directory could not be read: "@ + error@,
                    ),
                ),
                Ok(entries) => match scan_outcome(root@, entries@, entries@.len() as int) {
                    Err(found) => Err(found),
                    Ok((records, bytes)) => set_outcome(
                        stage,
                        injection,
                        sorted_records(records),
                        bytes,
                    ),
                },
            }
        },
    }
}

/// Turns a protocol-failure marker into the refusal of its set.
pub fn read_protocol_failure(marker: Option<ProtocolFailureMarker>) -> (failure: CaptureFailure)
    ensures
        failure@ == marker_refusal(marker),
{
    match marker {
        Some(found) => {
            if same_text(found.protocol.as_str(), PROTOCOL) && same_text(
                found.reason.as_str(),
                PROTOCOL_FAILURE_REASON,
            ) {
                return CaptureFailure::new(
                    PROTOCOL_FAILURE_REASON,
                    text2(
                        "The private compiler shim aborted before executing rustc: ",
                        found.message.as_str(),
                    ).as_str(),
                );
            }
        },
        None => {},
    }
    CaptureFailure::new(
        CAPTURE_CORRUPT_REASON,
        "A stage protocol-failure marker could not be read.",
    )
}

/// Validates one record that was read from `path`.
pub fn read_record(path: &[u8], root: &[u8], read: RecordRead) -> (record: Result<
    CaptureRecord,
    CaptureFailure,
>)
    ensures
        match record {
            Ok(found) => record_outcome(path@, root@, read) == Ok::<CaptureRecord, Refusal>(found),
            Err(failure) => record_outcome(path@, root@, read) == Err::<CaptureRecord, Refusal>(
                failure@,
            ),
        },
{
    let record = match read {
        RecordRead::Unreadable(error) => return Err(
            CaptureFailure::new(
                CAPTURE_CORRUPT_REASON,
                text2("A stage capture record could not be read: ", error.as_str()).as_str(),
            ),
        ),
        RecordRead::Malformed(error) => return Err(
            CaptureFailure::new(
                CAPTURE_CORRUPT_REASON,
                text2("A stage capture record could not be parsed: ", error.as_str()).as_str(),
            ),
        ),
        RecordRead::Parsed(record) => record,
    };
    if !same_text(record.protocol.as_str(), PROTOCOL) || record.normalization
        != NORMALIZATION_VERSION {
        return Err(
            CaptureFailure::new(
                CAPTURE_CORRUPT_REASON,
                "A stage capture record used an unsupported protocol version.",
            ),
        );
    }
    let file_name = text2(record.record_id.as_str(), ".json");
    let expected = join(root, file_name.as_str().as_bytes());
    if !same_path(expected.as_slice(), path) {
        return Err(
            CaptureFailure::new(
                CAPTURE_CORRUPT_REASON,
                "A stage capture record identity does not match its file name.",
            ),
        );
    }
    Ok(record)
}

/// Validates one listed entry.
pub fn read_entry(root: &[u8], entry: Result<CaptureEntry, String>) -> (record: Result<
    (CaptureRecord, u64),
    CaptureFailure,
>)
    ensures
        match record {
            Ok((found, length)) => {
                &&& entry_outcome(root@, entry) == Ok::<CaptureRecord, Refusal>(found)
                &&& length == entry_length(entry)
                &&& length <= RECORD_BYTE_LIMIT
            },
            Err(failure) => entry_outcome(root@, entry) == Err::<CaptureRecord, Refusal>(failure@),
        },
{
    let found = match entry {
        Ok(found) => found,
        Err(error) => return Err(
            CaptureFailure::new(
                CAPTURE_MISSING_REASON,
                text2("A stage capture entry could not be read: ", error.as_str()).as_str(),
            ),
        ),
    };
    let status: EntryStatus = match &found.status {
        Ok(status) => *status,
        Err(error) => return Err(
            CaptureFailure::new(
                CAPTURE_CORRUPT_REASON,
                text2("A stage capture entry could not be inspected: ", error.as_str()).as_str(),
            ),
        ),
    };
    if status.symlink || !status.regular {
        return Err(
            CaptureFailure::new(
                CAPTURE_CORRUPT_REASON,
                "A stage capture entry is a symlink or not a regular file.",
            ),
        );
    }
    if !starts_with(found.path.as_slice(), root) {
        return Err(
            CaptureFailure::new(
                CAPTURE_CORRUPT_REASON,
                "A stage capture entry escaped its canonical capture root.",
            ),
        );
    }
    if status.length > RECORD_BYTE_LIMIT {
        return Err(
            CaptureFailure::new(
                CAPTURE_LIMIT_REASON,
                "A stage capture record exceeded its bounded size.",
            ),
        );
    }
    if has_prefix(found.name.as_slice(), PROTOCOL_FAILURE_PREFIX.as_bytes()) {
        return Err(read_protocol_failure(found.marker));
    }
    match read_record(found.path.as_slice(), root, found.record) {
        Ok(record) => Ok((record, status.length)),
        Err(failure) => Err(failure),
    }
}

proof fn lemma_scan_prefix(
    root: Seq<u8>,
    entries: Seq<Result<CaptureEntry, String>>,
    count: int,
    more: int,
)
    requires
        0 <= count <= more,
        scan_outcome(root, entries, count) is Err,
    ensures
        scan_outcome(root, entries, more) == scan_outcome(root, entries, count),
    decreases more - count,
{
    if count < more {
        lemma_scan_prefix(root, entries, count, more - 1);
    }
}

fn scan_entries(root: &[u8], entries: Vec<Result<CaptureEntry, String>>) -> (scanned: Result<
    (Vec<CaptureRecord>, u64),
    CaptureFailure,
>)
    ensures
        match scanned {
            Ok((records, bytes)) => {
                &&& scan_outcome(root@, entries@, entries@.len() as int) == Ok::<
                    (Seq<CaptureRecord>, int),
                    Refusal,
                >((records@, bytes as int))
                &&& records@.len() <= RECORD_LIMIT
            },
            Err(failure) => scan_outcome(root@, entries@, entries@.len() as int) == Err::<
                (Seq<CaptureRecord>, int),
                Refusal,
            >(failure@),
        },
{
    let ghost all = entries@;
    let ghost total = all.len() as int;
    let mut left = entries;
    // Entries are taken from the end of the reversed list, so in their listed order.
    let mut reversed: Vec<Result<CaptureEntry, String>> = Vec::new();
    while left.len() > 0
        invariant
            total == all.len(),
            left@ == all.take(left@.len() as int),
            left@.len() + reversed@.len() == total,
            forall|i: int|
                0 <= i < reversed@.len() ==> #[trigger] reversed@[i] == all[total - 1 - i],
        decreases left@.len(),
    {
        let ghost count = left@.len();
        if let Some(entry) = left.pop() {
            reversed.push(entry);
        }
        assert(left@ =~= all.take(count - 1));
    }
    let mut records: Vec<CaptureRecord> = Vec::new();
    let mut bytes: u64 = 0;
    assert(records@ =~= Seq::empty());
    while reversed.len() > 0
        invariant
            total == all.len(),
            all == entries@,
            reversed@.len() + records@.len() == total,
            forall|i: int|
                0 <= i < reversed@.len() ==> #[trigger] reversed@[i] == all[total - 1 - i],
            scan_outcome(root@, all, records@.len() as int) == Ok::<
                (Seq<CaptureRecord>, int),
                Refusal,
            >((records@, bytes as int)),
            records@.len() <= RECORD_LIMIT,
            bytes <= CAPTURE_BYTE_LIMIT,
        decreases reversed@.len(),
    {
        let ghost count = records@.len() as int;
        let ghost last = reversed@.last();
        assert(last == all[count]);
        if let Some(entry) = reversed.pop() {
            match read_entry(root, entry) {
                Err(failure) => {
                    proof {
                        assert(scan_outcome(root@, all, count + 1) is Err);
                        lemma_scan_prefix(root@, all, count + 1, total);
                    }
                    return Err(failure);
                },
                Ok((record, length)) => {
                    if records.len() >= RECORD_LIMIT {
                        proof {
                            assert(scan_outcome(root@, all, count + 1) is Err);
                            lemma_scan_prefix(root@, all, count + 1, total);
                        }
                        return Err(
                            CaptureFailure::new(
                                CAPTURE_LIMIT_REASON,
                                "The stage produced more than 10000 capture records.",
                            ),
                        );
                    }
                    if bytes + length > CAPTURE_BYTE_LIMIT {
                        proof {
                            assert(scan_outcome(root@, all, count + 1) is Err);
                            lemma_scan_prefix(root@, all, count + 1, total);
                        }
                        return Err(
                            CaptureFailure::new(
                                CAPTURE_LIMIT_REASON,
                                "The stage capture set exceeded 32 MiB.",
                            ),
                        );
                    }
                    records.push(record);
                    bytes = bytes + length;
                },
            }
        }
    }
    Ok((records, bytes))
}

fn identity_keys(records: &Vec<CaptureRecord>) -> (keys: Vec<Vec<u8>>)
    ensures
        byte_strings(keys@) == identities(records@),
{
    let mut keys: Vec<Vec<u8>> = Vec::new();
    let mut index: usize = 0;
    while index < records.len()
        invariant
            index <= records@.len(),
            keys@.len() == index,
            forall|i: int|
                0 <= i < index ==> (#[trigger] keys@[i])@ == encode_utf8(records@[i].record_id@),
        decreases records@.len() - index,
    {
        keys.push(slice_to_vec(records[index].record_id.as_str().as_bytes()));
        index = index + 1;
    }
    assert(byte_strings(keys@) =~= identities(records@));
    keys
}

fn sort_records(records: Vec<CaptureRecord>) -> (sorted: Vec<CaptureRecord>)
    ensures
        sorted@ == sorted_records(records@),
        sorted@.len() == records@.len(),
        forall|i: int, j: int|
            0 <= i < j < sorted@.len() ==> bytes_le(
                encode_utf8((#[trigger] sorted@[i]).record_id@),
                encode_utf8((#[trigger] sorted@[j]).record_id@),
            ),
{
    let keys = identity_keys(&records);
    let order = order_keys(&keys);
    let ghost all = records@;
    let sorted = arrange(records, &order);
    proof {
        assert forall|i: int, j: int| 0 <= i < j < sorted@.len() implies bytes_le(
            encode_utf8((#[trigger] sorted@[i]).record_id@),
            encode_utf8((#[trigger] sorted@[j]).record_id@),
        ) by {
            assert(key_before(identities(all), order@[i] as int, order@[j] as int));
            assert(sorted@[i] == all[order@[i] as int]);
            assert(sorted@[j] == all[order@[j] as int]);
        }
    }
    sorted
}

fn check_set(records: &Vec<CaptureRecord>, stage: ShimStage) -> (checked: Result<
    (),
    CaptureFailure,
>)
    requires
        forall|i: int, j: int|
            0 <= i < j < records@.len() ==> bytes_le(
                encode_utf8((#[trigger] records@[i]).record_id@),
                encode_utf8((#[trigger] records@[j]).record_id@),
            ),
    ensures
        match checked {
            Ok(_) => first_set_defect(records@, stage, 0) is None,
            Err(failure) => first_set_defect(records@, stage, 0) == Some(failure@),
        },
{
    let mut index: usize = 0;
    while index < records.len()
        invariant
            index <= records@.len(),
            first_set_defect(records@, stage, 0) == first_set_defect(
                records@,
                stage,
                index as int,
            ),
            forall|i: int, j: int|
                0 <= i < j < records@.len() ==> bytes_le(
                    encode_utf8((#[trigger] records@[i]).record_id@),
                    encode_utf8((#[trigger] records@[j]).record_id@),
                ),
        decreases records@.len() - index,
    {
        if records[index].stage != stage {
            return Err(
                CaptureFailure::new(
                    CAPTURE_CORRUPT_REASON,
                    "A stage capture record belongs to another interposition stage.",
                ),
            );
        }
        if index > 0 && same_text(
            records[index - 1].record_id.as_str(),
            records[index].record_id.as_str(),
        ) {
            proof {
                assert(records@[index - 1].record_id@ == records@[index as int].record_id@);
                assert(repeats_identity(records@, index as int));
            }
            return Err(
                CaptureFailure::new(
                    CAPTURE_CORRUPT_REASON,
                    "Two stage capture records declare the same record identity.",
                ),
            );
        }
        proof {
            if repeats_identity(records@, index as int) {
                let i = choose|i: int|
                    0 <= i < index && (#[trigger] records@[i]).record_id@
                        == records@[index as int].record_id@;
                if i < index - 1 {
                    lemma_bytes_antisymmetric(
                        encode_utf8(records@[i].record_id@),
                        encode_utf8(records@[index - 1].record_id@),
                    );
                    lemma_encode_injective(
                        records@[i].record_id@,
                        records@[index - 1].record_id@,
                    );
                }
                assert(false);
            }
        }
        index = index + 1;
    }
    Ok(())
}

fn check_rejections(records: &Vec<CaptureRecord>) -> (checked: Result<(), CaptureFailure>)
    ensures
        match checked {
            Ok(_) => first_rejection(records@, 0) is None,
            Err(failure) => first_rejection(records@, 0) == Some(failure@),
        },
{
    let mut index: usize = 0;
    while index < records.len()
        invariant
            index <= records@.len(),
            first_rejection(records@, 0) == first_rejection(records@, index as int),
        decreases records@.len() - index,
    {
        if let Some(reason) = &records[index].rejection {
            if same_text(reason.as_str(), INPUT_CONFLICT_REASON) {
                return Err(
                    CaptureFailure::new(
                        INPUT_CONFLICT_REASON,
                        "A resolved target compilation already carried a profiling or coverage control.",
                    ),
                );
            }
            if same_text(reason.as_str(), INPUT_AMBIGUITY_REASON) {
                return Err(
                    CaptureFailure::new(
                        INPUT_AMBIGUITY_REASON,
                        "A resolved target compilation had an unsupported argument shape.",
                    ),
                );
            }
            return Err(
                CaptureFailure::new(
                    CAPTURE_CORRUPT_REASON,
                    "A stage capture record declares an unknown rejection reason.",
                ),
            );
        }
        index = index + 1;
    }
    Ok(())
}

struct ClassCounts {
    targets: usize,
    hosts: usize,
    probes: usize,
    others: usize,
}

spec fn counts_agree(counts: ClassCounts, records: Seq<CaptureRecord>, count: int) -> bool {
    &&& counts.targets == class_count(records, InvocationClass::TargetCompile, count)
    &&& counts.hosts == class_count(records, InvocationClass::HostCompile, count)
    &&& counts.probes == class_count(records, InvocationClass::Probe, count)
    &&& counts.others == class_count(records, InvocationClass::Other, count)
    &&& counts.targets <= count
    &&& counts.hosts <= count
    &&& counts.probes <= count
    &&& counts.others <= count
}

fn check_injections(records: &Vec<CaptureRecord>, expected: &Vec<String>) -> (checked: Result<
    ClassCounts,
    CaptureFailure,
>)
    ensures
        match checked {
            Ok(counts) => {
                &&& first_injection_defect(records@, texts(expected@), 0) is None
                &&& counts_agree(counts, records@, records@.len() as int)
            },
            Err(failure) => first_injection_defect(records@, texts(expected@), 0) == Some(
                failure@,
            ),
        },
{
    let mut counts = ClassCounts { targets: 0, hosts: 0, probes: 0, others: 0 };
    let mut index: usize = 0;
    while index < records.len()
        invariant
            index <= records@.len(),
            first_injection_defect(records@, texts(expected@), 0) == first_injection_defect(
                records@,
                texts(expected@),
                index as int,
            ),
            counts_agree(counts, records@, index as int),
        decreases records@.len() - index,
    {
        match records[index].class {
            InvocationClass::TargetCompile => {
                counts.targets = counts.targets + 1;
                if !same_texts(&records[index].injected_flags, expected) {
                    return Err(
                        CaptureFailure::new(
                            INJECTION_UNEXPECTED_REASON,
                            "A target compilation did not receive exactly the expected phase controls.",
                        ),
                    );
                }
            },
            other => {
                if records[index].injected_flags.len() > 0 {
                    return Err(
                        CaptureFailure::new(
                            INJECTION_UNEXPECTED_REASON,
                            "A probe or host invocation received a Temper phase control.",
                        ),
                    );
                }
                match other {
                    InvocationClass::HostCompile => {
                        counts.hosts = counts.hosts + 1;
                    },
                    InvocationClass::Probe => {
                        counts.probes = counts.probes + 1;
                    },
                    _ => {
                        counts.others = counts.others + 1;
                    },
                }
            },
        }
        index = index + 1;
    }
    Ok(counts)
}

fn capture_digest(records: &Vec<CaptureRecord>) -> (digest: String)
    ensures
        digest@ == sha256_text(frame(sorted_bytes(post_digests(records@)))),
{
    let mut digests: Vec<Vec<u8>> = Vec::new();
    let mut index: usize = 0;
    while index < records.len()
        invariant
            index <= records@.len(),
            digests@.len() == index,
            forall|i: int|
                0 <= i < index ==> (#[trigger] digests@[i])@ == encode_utf8(
                    records@[i].post_digest@,
                ),
        decreases records@.len() - index,
    {
        digests.push(slice_to_vec(records[index].post_digest.as_str().as_bytes()));
        index = index + 1;
    }
    assert(byte_strings(digests@) =~= post_digests(records@));
    let order = order_keys(&digests);
    let ghost all = digests@;
    let sorted = arrange(digests, &order);
    assert(byte_strings(sorted@) =~= picked(byte_strings(all), order@));
    framed_digest(&sorted)
}

/// Validates and aggregates one stage's capture set after Cargo exits.
pub fn collect(plan: &InterpositionPlan, listing: CaptureListing) -> (aggregate: Result<
    CaptureAggregate,
    CaptureFailure,
>)
    ensures
        match aggregate {
            Ok(found) => collection(
                plan.stage,
                plan.injection@,
                plan.capture_directory@,
                listing,
            ) == Ok::<CaptureAggregateView, Refusal>(found@),
            Err(failure) => collection(
                plan.stage,
                plan.injection@,
                plan.capture_directory@,
                listing,
            ) == Err::<CaptureAggregateView, Refusal>(failure@),
        },
{
    let root = match listing.root {
        Ok(root) => root,
        Err(error) => return Err(
            CaptureFailure::new(
                CAPTURE_MISSING_REASON,
                text2("The stage capture directory is unavailable: ", error.as_str()).as_str(),
            ),
        ),
    };
    if !same_path(root.as_slice(), plan.capture_directory.as_slice()) {
        return Err(
            CaptureFailure::new(
                CAPTURE_CORRUPT_REASON,
                "The stage capture directory no longer matches its canonical claim.",
            ),
        );
    }
    let entries = match listing.entries {
        Ok(entries) => entries,
        Err(error) => return Err(
            CaptureFailure::new(
                CAPTURE_MISSING_REASON,
                text2("The stage capture directory could not be read: ", error.as_str()).as_str(),
            ),
        ),
    };
    let (scanned, capture_bytes) = match scan_entries(root.as_slice(), entries) {
        Ok(found) => found,
        Err(failure) => return Err(failure),
    };
    let records = sort_records(scanned);
    if let Err(failure) = check_set(&records, plan.stage) {
        return Err(failure);
    }
    if let Err(failure) = check_rejections(&records) {
        return Err(failure);
    }
    let expected = expected_flags(&plan.injection);
    let counts = match check_injections(&records, &expected) {
        Ok(counts) => counts,
        Err(failure) => return Err(failure),
    };
    if counts.targets == 0 {
        return Err(
            CaptureFailure::new(
                CAPTURE_MISSING_REASON,
                "The stage produced no observed target compilation.",
            ),
        );
    }
    // The digest set is sorted, so a stage aggregate does not depend on the order in which
    // parallel shim processes happened to create their records.
    let digest = capture_digest(&records);
    let injected_invocations: usize = if expected.len() == 0 {
        0
    } else {
        counts.targets
    };
    proof {
        assert(texts(expected@).len() == expected@.len());
    }
    Ok(
        CaptureAggregate {
            protocol: PROTOCOL,
            normalization: NORMALIZATION_VERSION,
            stage: plan.stage,
            record_count: records.len(),
            capture_bytes,
            target_compilations: counts.targets,
            host_compilations: counts.hosts,
            probes: counts.probes,
            other_invocations: counts.others,
            injected_invocations,
            injected_flags: plan.injection.flag_identifiers(),
            capture_digest: digest,
            records,
        },
    )
}

proof fn lemma_refusals_fit()
    ensures
        forall|reason: Seq<char>, message: Seq<char>|
            byte_len((#[trigger] refusal(reason, message)).message) <= FIELD_LIMIT,
{
    assert forall|reason: Seq<char>, message: Seq<char>|
        byte_len((#[trigger] refusal(reason, message)).message) <= FIELD_LIMIT by {
        lemma_bounded_text_fits(message, FIELD_LIMIT as nat);
    }
}

/// Whether a refusal has a stable reason and a bounded message.
pub open spec fn is_stable_refusal(found: Refusal) -> bool {
    is_compiler_input_reason(found.reason) && byte_len(found.message) <= FIELD_LIMIT
}

proof fn lemma_scan_refusal(
    root: Seq<u8>,
    entries: Seq<Result<CaptureEntry, String>>,
    count: int,
)
    ensures
        scan_outcome(root, entries, count) matches Err(found) ==> is_stable_refusal(found),
    decreases count,
{
    lemma_refusals_fit();
    if count > 0 {
        lemma_scan_refusal(root, entries, count - 1);
    }
}

proof fn lemma_set_refusals(
    records: Seq<CaptureRecord>,
    stage: ShimStage,
    expected: Seq<Seq<char>>,
    from: int,
)
    ensures
        first_set_defect(records, stage, from) matches Some(found) ==> is_stable_refusal(found),
        first_rejection(records, from) matches Some(found) ==> is_stable_refusal(found),
        first_injection_defect(records, expected, from) matches Some(found) ==> is_stable_refusal(
            found,
        ),
    decreases records.len() - from,
{
    lemma_refusals_fit();
    if 0 <= from && from < records.len() {
        lemma_set_refusals(records, stage, expected, from + 1);
    }
}

/// A capture set is only ever refused for a stable compiler-input reason, with a bounded message.
pub proof fn law_refusals_are_stable_and_bounded(
    stage: ShimStage,
    injection: InjectionView,
    claimed: Seq<u8>,
    listing: CaptureListing,
)
    ensures
        collection(stage, injection, claimed, listing) matches Err(found) ==> {
            &&& is_compiler_input_reason(found.reason)
            &&& byte_len(found.message) <= FIELD_LIMIT
        },
{
    lemma_refusals_fit();
    match (listing.root, listing.entries) {
        (Ok(root), Ok(entries)) => {
            lemma_scan_refusal(root@, entries@, entries@.len() as int);
            match scan_outcome(root@, entries@, entries@.len() as int) {
                Ok((records, _)) => {
                    lemma_set_refusals(
                        sorted_records(records),
                        stage,
                        identifiers_of(injection),
                        0,
                    );
                },
                Err(_) => {},
            }
        },
        _ => {},
    }
}

proof fn lemma_class_counts(records: Seq<CaptureRecord>, count: int)
    requires
        0 <= count <= records.len(),
    ensures
        class_count(records, InvocationClass::TargetCompile, count) + class_count(
            records,
            InvocationClass::HostCompile,
            count,
        ) + class_count(records, InvocationClass::Probe, count) + class_count(
            records,
            InvocationClass::Other,
            count,
        ) == count,
    decreases count,
{
    if count > 0 {
        lemma_class_counts(records, count - 1);
    }
}

proof fn lemma_no_injection_defect(
    records: Seq<CaptureRecord>,
    expected: Seq<Seq<char>>,
    from: int,
    index: int,
)
    requires
        0 <= from <= index < records.len(),
        first_injection_defect(records, expected, from) is None,
    ensures
        texts(records[index].injected_flags@) == if records[index].class
            == InvocationClass::TargetCompile {
            expected
        } else {
            Seq::empty()
        },
    decreases index - from,
{
    if from < index {
        lemma_no_injection_defect(records, expected, from + 1, index);
    } else if records[index].class != InvocationClass::TargetCompile {
        assert(texts(records[index].injected_flags@) =~= Seq::empty());
    }
}

/// An accepted capture set holds a target compilation, counts every record once, and shows the
/// stage's controls on its target compilations and on nothing else.
pub proof fn law_accepted_sets_are_complete(
    stage: ShimStage,
    injection: InjectionView,
    claimed: Seq<u8>,
    listing: CaptureListing,
)
    requires
        collection(stage, injection, claimed, listing) is Ok,
    ensures
        ({
            let found = collection(stage, injection, claimed, listing)->Ok_0;
            &&& found.target_compilations > 0
            &&& found.target_compilations + found.host_compilations + found.probes
                + found.other_invocations == found.record_count
            &&& found.record_count == found.records.len()
            &&& forall|i: int|
                0 <= i < found.records.len() ==> texts(
                    (#[trigger] found.records[i]).injected_flags@,
                ) == if found.records[i].class == InvocationClass::TargetCompile {
                    identifiers_of(injection)
                } else {
                    Seq::empty()
                }
        }),
{
    let found = collection(stage, injection, claimed, listing)->Ok_0;
    lemma_class_counts(found.records, found.records.len() as int);
    lemma_counts_not_negative(found.records, found.records.len() as int);
    assert forall|i: int| 0 <= i < found.records.len() implies texts(
        (#[trigger] found.records[i]).injected_flags@,
    ) == if found.records[i].class == InvocationClass::TargetCompile {
        identifiers_of(injection)
    } else {
        Seq::empty()
    } by {
        lemma_no_injection_defect(found.records, identifiers_of(injection), 0, i);
    }
}

proof fn lemma_counts_not_negative(records: Seq<CaptureRecord>, count: int)
    ensures
        class_count(records, InvocationClass::TargetCompile, count) >= 0,
    decreases count,
{
    if count > 0 {
        lemma_counts_not_negative(records, count - 1);
    }
}

/// The sizes of the first `count` entries together.
pub open spec fn total_length(entries: Seq<Result<CaptureEntry, String>>, count: int) -> int
    decreases count,
{
    if count <= 0 {
        0
    } else {
        total_length(entries, count - 1) + entry_length(entries[count - 1])
    }
}

/// The record of each accepted entry.
pub open spec fn entry_records(
    root: Seq<u8>,
    entries: Seq<Result<CaptureEntry, String>>,
) -> Seq<CaptureRecord> {
    entries.map_values(|entry: Result<CaptureEntry, String>| entry_outcome(root, entry)->Ok_0)
}

proof fn lemma_total_length_not_negative(
    entries: Seq<Result<CaptureEntry, String>>,
    count: int,
)
    ensures
        total_length(entries, count) >= 0,
    decreases count,
{
    if count > 0 {
        lemma_total_length_not_negative(entries, count - 1);
    }
}

proof fn lemma_scan_accepts(
    root: Seq<u8>,
    entries: Seq<Result<CaptureEntry, String>>,
    count: int,
)
    requires
        0 <= count <= entries.len(),
    ensures
        scan_outcome(root, entries, count) is Ok <==> {
            &&& forall|i: int| 0 <= i < count ==> entry_outcome(root, #[trigger] entries[i]) is Ok
            &&& count <= RECORD_LIMIT
            &&& total_length(entries, count) <= CAPTURE_BYTE_LIMIT
        },
        scan_outcome(root, entries, count) matches Ok((records, bytes)) ==> records
            == entry_records(root, entries.take(count)) && bytes == total_length(entries, count),
    decreases count,
{
    if count == 0 {
        assert(entry_records(root, entries.take(0)) =~= Seq::empty());
    } else {
        lemma_scan_accepts(root, entries, count - 1);
        lemma_total_length_not_negative(entries, count - 1);
        assert(entry_records(root, entries.take(count)) =~= entry_records(
            root,
            entries.take(count - 1),
        ).push(entry_outcome(root, entries[count - 1])->Ok_0));
        if scan_outcome(root, entries, count - 1) is Ok {
            assert(entry_length(entries[count - 1]) >= 0);
        } else {
            assert(entry_length(entries[count - 1]) >= 0);
        }
    }
}

proof fn lemma_total_length_remove(
    entries: Seq<Result<CaptureEntry, String>>,
    place: int,
)
    requires
        0 <= place < entries.len(),
    ensures
        total_length(entries, entries.len() as int) == total_length(
            entries.remove(place),
            entries.len() - 1,
        ) + entry_length(entries[place]),
    decreases entries.len(),
{
    let rest = entries.remove(place);
    let last = entries.len() - 1;
    if place == last {
        lemma_total_length_prefix(entries, rest, last);
    } else {
        let shorter = entries.drop_last();
        lemma_total_length_remove(shorter, place);
        lemma_total_length_prefix(entries, shorter, last);
        lemma_total_length_prefix(rest, shorter.remove(place), last - 1);
        assert(rest[last - 1] == entries[last]);
    }
}

proof fn lemma_total_length_prefix(
    left: Seq<Result<CaptureEntry, String>>,
    right: Seq<Result<CaptureEntry, String>>,
    count: int,
)
    requires
        0 <= count <= left.len(),
        count <= right.len(),
        forall|i: int| 0 <= i < count ==> #[trigger] left[i] == right[i],
    ensures
        total_length(left, count) == total_length(right, count),
    decreases count,
{
    if count > 0 {
        lemma_total_length_prefix(left, right, count - 1);
        assert(left[count - 1] == right[count - 1]);
    }
}

proof fn lemma_permuted_entries(
    root: Seq<u8>,
    left: Seq<Result<CaptureEntry, String>>,
    right: Seq<Result<CaptureEntry, String>>,
)
    requires
        left.to_multiset() == right.to_multiset(),
    ensures
        left.len() == right.len(),
        total_length(left, left.len() as int) == total_length(right, right.len() as int),
        entry_records(root, left).to_multiset() == entry_records(root, right).to_multiset(),
        (forall|i: int| 0 <= i < left.len() ==> entry_outcome(root, #[trigger] left[i]) is Ok)
            ==> (forall|i: int|
            0 <= i < right.len() ==> entry_outcome(root, #[trigger] right[i]) is Ok),
    decreases left.len(),
{
    broadcast use vstd::seq_lib::group_to_multiset_ensures;

    left.to_multiset_ensures();
    right.to_multiset_ensures();
    if left.len() == 0 {
        assert(left =~= right);
    } else {
        let last = left.len() - 1;
        let entry = left[last];
        assert(left.contains(entry));
        assert(right.to_multiset().count(entry) > 0);
        assert(right.contains(entry));
        let place = choose|i: int| 0 <= i < right.len() && right[i] == entry;
        assert(left.remove(last) =~= left.drop_last());
        let rest = right.remove(place);
        lemma_permuted_entries(root, left.drop_last(), rest);
        lemma_total_length_remove(left, last);
        lemma_total_length_remove(right, place);
        let a = entry_records(root, left);
        let b = entry_records(root, right);
        assert(a.drop_last() =~= entry_records(root, left.drop_last()));
        assert(b.remove(place) =~= entry_records(root, rest));
        assert(a =~= a.drop_last().push(a.last()));
        assert(b[place] == a.last());
        assert(b.contains(b[place]));
        assert(b.to_multiset().count(a.last()) > 0);
        assert(b.to_multiset() =~= b.remove(place).to_multiset().insert(a.last()));
        if forall|i: int| 0 <= i < left.len() ==> entry_outcome(root, #[trigger] left[i]) is Ok {
            assert(forall|i: int|
                0 <= i < left.drop_last().len() ==> entry_outcome(
                    root,
                    #[trigger] left.drop_last()[i],
                ) is Ok);
            assert forall|i: int| 0 <= i < right.len() implies entry_outcome(
                root,
                #[trigger] right[i],
            ) is Ok by {
                if i < place {
                    assert(rest[i] == right[i]);
                } else if i > place {
                    assert(rest[i - 1] == right[i]);
                } else {
                    assert(right[i] == left[last]);
                }
            }
        }
    }
}

/// Whether no two records declare the same identity.
pub open spec fn unique_identities(records: Seq<CaptureRecord>) -> bool {
    forall|i: int, j: int|
        0 <= i < j < records.len() ==> (#[trigger] records[i]).record_id@ != (
        #[trigger] records[j]).record_id@
}

/// Whether records stand in the order of their identities.
pub open spec fn in_identity_order(records: Seq<CaptureRecord>) -> bool {
    forall|i: int, j: int|
        0 <= i < j < records.len() ==> bytes_le(
            encode_utf8((#[trigger] records[i]).record_id@),
            encode_utf8((#[trigger] records[j]).record_id@),
        )
}

proof fn lemma_sorted_sets_agree(left: Seq<CaptureRecord>, right: Seq<CaptureRecord>)
    requires
        left.to_multiset() == right.to_multiset(),
        in_identity_order(left),
        in_identity_order(right),
        unique_identities(left),
    ensures
        left == right,
    decreases left.len(),
{
    broadcast use vstd::seq_lib::group_to_multiset_ensures;

    left.to_multiset_ensures();
    right.to_multiset_ensures();
    if left.len() == 0 {
        assert(left =~= right);
    } else {
        let a = left.last();
        let b = right.last();
        assert(left.contains(a) && right.contains(b));
        assert(right.to_multiset().count(a) > 0);
        assert(left.to_multiset().count(b) > 0);
        assert(right.contains(a) && left.contains(b));
        let i = choose|i: int| 0 <= i < right.len() && right[i] == a;
        let j = choose|j: int| 0 <= j < left.len() && left[j] == b;
        if j < left.len() - 1 {
            assert(bytes_le(encode_utf8(left[j].record_id@), encode_utf8(a.record_id@)));
            if i < right.len() - 1 {
                assert(bytes_le(encode_utf8(right[i].record_id@), encode_utf8(b.record_id@)));
                lemma_bytes_antisymmetric(encode_utf8(a.record_id@), encode_utf8(b.record_id@));
                lemma_encode_injective(a.record_id@, b.record_id@);
                assert(left[j].record_id@ == left[left.len() - 1].record_id@);
                assert(false);
            }
        }
        assert(a == b);
        let last = left.len() - 1;
        assert(left.remove(last) =~= left.drop_last());
        assert(right.remove(last) =~= right.drop_last());
        lemma_sorted_sets_agree(left.drop_last(), right.drop_last());
        assert(left =~= left.drop_last().push(a));
        assert(right =~= right.drop_last().push(b));
    }
}

/// The sorted records are the same records, in the order of their identities.
proof fn lemma_sorted_records(records: Seq<CaptureRecord>)
    requires
        is_byte_order(identities(records), byte_order(identities(records))),
    ensures
        sorted_records(records).to_multiset() == records.to_multiset(),
        in_identity_order(sorted_records(records)),
{
    let keys = identities(records);
    let order = byte_order(keys);
    lemma_picked_multiset(records, order);
    let sorted = sorted_records(records);
    assert forall|i: int, j: int| 0 <= i < j < sorted.len() implies bytes_le(
        encode_utf8((#[trigger] sorted[i]).record_id@),
        encode_utf8((#[trigger] sorted[j]).record_id@),
    ) by {
        assert(key_before(keys, order[i] as int, order[j] as int));
    }
}

proof fn lemma_no_set_defect(records: Seq<CaptureRecord>, stage: ShimStage, from: int, index: int)
    requires
        0 <= from <= index < records.len(),
        first_set_defect(records, stage, from) is None,
    ensures
        !repeats_identity(records, index),
    decreases index - from,
{
    if from < index {
        lemma_no_set_defect(records, stage, from + 1, index);
    }
}

/// The aggregate of listed entries, or why they are refused.
spec fn gathered(
    stage: ShimStage,
    injection: InjectionView,
    root: Seq<u8>,
    entries: Seq<Result<CaptureEntry, String>>,
) -> Result<CaptureAggregateView, Refusal> {
    match scan_outcome(root, entries, entries.len() as int) {
        Err(found) => Err(found),
        Ok((records, bytes)) => set_outcome(stage, injection, sorted_records(records), bytes),
    }
}

proof fn lemma_permuted_sets(
    stage: ShimStage,
    injection: InjectionView,
    root: Seq<u8>,
    left: Seq<Result<CaptureEntry, String>>,
    right: Seq<Result<CaptureEntry, String>>,
)
    requires
        left.to_multiset() == right.to_multiset(),
        gathered(stage, injection, root, left) is Ok,
    ensures
        gathered(stage, injection, root, right) == gathered(stage, injection, root, left),
{
    lemma_scan_accepts(root, left, left.len() as int);
    lemma_scan_accepts(root, right, right.len() as int);
    assert(left.take(left.len() as int) =~= left);
    assert(right.take(right.len() as int) =~= right);
    lemma_permuted_entries(root, left, right);
    let a = entry_records(root, left);
    let b = entry_records(root, right);
    lemma_byte_order_exists(identities(a));
    lemma_byte_order_exists(identities(b));
    lemma_sorted_records(a);
    lemma_sorted_records(b);
    let sorted = sorted_records(a);
    assert forall|i: int, j: int| 0 <= i < j < sorted.len() implies (
    #[trigger] sorted[i]).record_id@ != (#[trigger] sorted[j]).record_id@ by {
        lemma_no_set_defect(sorted, stage, 0, j);
        assert(!repeats_identity(sorted, j));
    }
    lemma_sorted_sets_agree(sorted, sorted_records(b));
}

/// An aggregate does not depend on the order of creation: listing the same entries in another
/// order gives the same aggregate.
pub proof fn law_aggregates_ignore_entry_order(
    stage: ShimStage,
    injection: InjectionView,
    claimed: Seq<u8>,
    first: CaptureListing,
    second: CaptureListing,
)
    requires
        first.root == second.root,
        first.entries is Ok,
        second.entries is Ok,
        first.entries->Ok_0@.to_multiset() == second.entries->Ok_0@.to_multiset(),
        collection(stage, injection, claimed, first) is Ok,
    ensures
        collection(stage, injection, claimed, second) == collection(
            stage,
            injection,
            claimed,
            first,
        ),
{
    lemma_permuted_sets(
        stage,
        injection,
        first.root->Ok_0@,
        first.entries->Ok_0@,
        second.entries->Ok_0@,
    );
}

/// What an entry of a capture directory holds, wherever the directory lies.
pub struct EntryContent {
    pub name: Seq<u8>,
    pub status: Option<EntryStatus>,
    pub record: Option<CaptureRecordView>,
}

/// What a listed entry holds, if it could be read.
pub open spec fn entry_content(entry: Result<CaptureEntry, String>) -> Option<EntryContent> {
    match entry {
        Err(_) => None,
        Ok(found) => Some(
            EntryContent {
                name: found.name@,
                status: match found.status {
                    Ok(status) => Some(status),
                    Err(_) => None,
                },
                record: match found.record {
                    RecordRead::Parsed(record) => Some(record@),
                    _ => None,
                },
            },
        ),
    }
}

/// What the listed entries hold.
pub open spec fn entry_contents(entries: Seq<Result<CaptureEntry, String>>) -> Seq<
    Option<EntryContent>,
> {
    entries.map_values(|entry: Result<CaptureEntry, String>| entry_content(entry))
}

/// Whether an entry has the path of its name in `root`, and neither its name nor the name that its
/// record calls for is an absolute path.
pub open spec fn is_listed_in(entry: Result<CaptureEntry, String>, root: Seq<u8>) -> bool {
    entry matches Ok(found) ==> {
        &&& parts(found.path@) == parts(join_path(root, found.name@))
        &&& !is_absolute_path(found.name@)
        &&& found.record matches RecordRead::Parsed(record) ==> !is_absolute_path(
            encode_utf8(record.record_id@ + ".json"@),
        )
    }
}

/// What records say.
pub open spec fn record_views(records: Seq<CaptureRecord>) -> Seq<CaptureRecordView> {
    records.map_values(|record: CaptureRecord| record@)
}

/// Whether two aggregates say the same: every count, the digest, and each record.
pub open spec fn same_aggregate(left: CaptureAggregateView, right: CaptureAggregateView) -> bool {
    &&& right == (CaptureAggregateView { records: right.records, ..left })
    &&& record_views(left.records) == record_views(right.records)
}

proof fn lemma_same_content(
    first_root: Seq<u8>,
    first: Result<CaptureEntry, String>,
    second_root: Seq<u8>,
    second: Result<CaptureEntry, String>,
)
    requires
        first_root.len() > 0,
        second_root.len() > 0,
        is_listed_in(first, first_root),
        is_listed_in(second, second_root),
        entry_content(first) == entry_content(second),
    ensures
        entry_length(first) == entry_length(second),
        entry_outcome(first_root, first) is Ok ==> {
            &&& entry_outcome(second_root, second) is Ok
            &&& entry_outcome(first_root, first)->Ok_0@ == entry_outcome(second_root, second)->Ok_0@
        },
{
    if entry_outcome(first_root, first) is Ok {
        let name = first->Ok_0.name@;
        let record = first->Ok_0.record->Parsed_0;
        let wanted = encode_utf8(record.record_id@ + ".json"@);
        law_joined_paths_extend_their_base(first_root, name);
        law_joined_paths_extend_their_base(first_root, wanted);
        law_joined_paths_extend_their_base(second_root, name);
        law_joined_paths_extend_their_base(second_root, wanted);
        let base = parts(first_root);
        assert((base + parts_below(name)).skip(base.len() as int) =~= parts_below(name));
        assert((base + parts_below(wanted)).skip(base.len() as int) =~= parts_below(wanted));
        assert(second->Ok_0.record->Parsed_0@ == record@);
    }
}

proof fn lemma_same_lengths(
    left: Seq<Result<CaptureEntry, String>>,
    right: Seq<Result<CaptureEntry, String>>,
    count: int,
)
    requires
        0 <= count <= left.len(),
        count <= right.len(),
        forall|i: int|
            0 <= i < count ==> entry_length(#[trigger] left[i]) == entry_length(right[i]),
    ensures
        total_length(left, count) == total_length(right, count),
    decreases count,
{
    if count > 0 {
        lemma_same_lengths(left, right, count - 1);
        assert(entry_length(left[count - 1]) == entry_length(right[count - 1]));
    }
}

proof fn lemma_same_views(left: Seq<CaptureRecord>, right: Seq<CaptureRecord>, index: int)
    requires
        record_views(left) == record_views(right),
        0 <= index < left.len(),
    ensures
        left.len() == right.len(),
        left[index]@ == right[index]@,
{
    assert(record_views(left)[index] == left[index]@);
    assert(record_views(right).len() == right.len());
    assert(record_views(right)[index] == right[index]@);
}

proof fn lemma_same_defects(
    left: Seq<CaptureRecord>,
    right: Seq<CaptureRecord>,
    stage: ShimStage,
    expected: Seq<Seq<char>>,
    from: int,
)
    requires
        record_views(left) == record_views(right),
    ensures
        first_set_defect(left, stage, from) == first_set_defect(right, stage, from),
        first_rejection(left, from) == first_rejection(right, from),
        first_injection_defect(left, expected, from) == first_injection_defect(
            right,
            expected,
            from,
        ),
    decreases left.len() - from,
{
    assert(record_views(left).len() == left.len());
    assert(record_views(right).len() == right.len());
    if 0 <= from && from < left.len() {
        assert forall|i: int| 0 <= i < left.len() implies (#[trigger] left[i])@ == right[i]@ by {
            lemma_same_views(left, right, i);
        }
        assert(left[from]@ == right[from]@);
        assert(left[from]@.injected_flags.len() == left[from].injected_flags@.len());
        assert(right[from]@.injected_flags.len() == right[from].injected_flags@.len());
        if repeats_identity(left, from) {
            let i = choose|i: int|
                0 <= i < from && (#[trigger] left[i]).record_id@ == left[from].record_id@;
            assert(left[i]@ == right[i]@);
            assert(right[i].record_id@ == right[from].record_id@);
        }
        if repeats_identity(right, from) {
            let i = choose|i: int|
                0 <= i < from && (#[trigger] right[i]).record_id@ == right[from].record_id@;
            assert(left[i]@ == right[i]@);
            assert(left[i].record_id@ == left[from].record_id@);
        }
        lemma_same_defects(left, right, stage, expected, from + 1);
    }
}

proof fn lemma_same_class_counts(
    left: Seq<CaptureRecord>,
    right: Seq<CaptureRecord>,
    class: InvocationClass,
    count: int,
)
    requires
        record_views(left) == record_views(right),
        count <= left.len(),
    ensures
        class_count(left, class, count) == class_count(right, class, count),
    decreases count,
{
    if count > 0 {
        lemma_same_views(left, right, count - 1);
        lemma_same_class_counts(left, right, class, count - 1);
    }
}

proof fn lemma_same_sets(
    stage: ShimStage,
    injection: InjectionView,
    left: Seq<CaptureRecord>,
    right: Seq<CaptureRecord>,
    bytes: int,
)
    requires
        record_views(left) == record_views(right),
        set_outcome(stage, injection, left, bytes) is Ok,
    ensures
        set_outcome(stage, injection, right, bytes) is Ok,
        same_aggregate(
            set_outcome(stage, injection, left, bytes)->Ok_0,
            set_outcome(stage, injection, right, bytes)->Ok_0,
        ),
{
    assert(record_views(left).len() == left.len());
    assert(record_views(right).len() == right.len());
    let total = left.len() as int;
    lemma_same_defects(left, right, stage, identifiers_of(injection), 0);
    lemma_same_class_counts(left, right, InvocationClass::TargetCompile, total);
    lemma_same_class_counts(left, right, InvocationClass::HostCompile, total);
    lemma_same_class_counts(left, right, InvocationClass::Probe, total);
    lemma_same_class_counts(left, right, InvocationClass::Other, total);
    assert forall|i: int| 0 <= i < left.len() implies (#[trigger] left[i])@ == right[i]@ by {
        lemma_same_views(left, right, i);
    }
    assert(post_digests(left) =~= post_digests(right)) by {
        assert forall|i: int| 0 <= i < left.len() implies post_digests(left)[i] == post_digests(
            right,
        )[i] by {
            assert(left[i]@ == right[i]@);
        }
    }
}

proof fn lemma_moved_sets(
    stage: ShimStage,
    injection: InjectionView,
    first_root: Seq<u8>,
    left: Seq<Result<CaptureEntry, String>>,
    second_root: Seq<u8>,
    right: Seq<Result<CaptureEntry, String>>,
)
    requires
        first_root.len() > 0,
        second_root.len() > 0,
        left.len() == right.len(),
        forall|i: int| 0 <= i < left.len() ==> is_listed_in(#[trigger] left[i], first_root),
        forall|i: int| 0 <= i < right.len() ==> is_listed_in(#[trigger] right[i], second_root),
        forall|i: int|
            0 <= i < left.len() ==> entry_content(#[trigger] left[i]) == entry_content(right[i]),
        gathered(stage, injection, first_root, left) is Ok,
    ensures
        gathered(stage, injection, second_root, right) is Ok,
        same_aggregate(
            gathered(stage, injection, first_root, left)->Ok_0,
            gathered(stage, injection, second_root, right)->Ok_0,
        ),
{
    let total = left.len() as int;
    lemma_scan_accepts(first_root, left, total);
    lemma_scan_accepts(second_root, right, total);
    assert(left.take(total) =~= left);
    assert(right.take(total) =~= right);
    assert forall|i: int| 0 <= i < total implies {
        &&& entry_length(#[trigger] left[i]) == entry_length(right[i])
        &&& entry_outcome(second_root, right[i]) is Ok
        &&& entry_outcome(first_root, left[i])->Ok_0@ == entry_outcome(second_root, right[i])->Ok_0@
    } by {
        lemma_same_content(first_root, left[i], second_root, right[i]);
    }
    assert forall|i: int| 0 <= i < total implies entry_outcome(
        second_root,
        #[trigger] right[i],
    ) is Ok by {
        assert(entry_length(left[i]) == entry_length(right[i]));
    }
    lemma_same_lengths(left, right, total);
    let a = entry_records(first_root, left);
    let b = entry_records(second_root, right);
    assert forall|i: int| 0 <= i < total implies (#[trigger] a[i])@ == b[i]@ by {
        assert(entry_length(left[i]) == entry_length(right[i]));
    }
    assert(identities(a) =~= identities(b)) by {
        assert forall|i: int| 0 <= i < total implies identities(a)[i] == identities(b)[i] by {
            assert(a[i]@ == b[i]@);
        }
    }
    lemma_byte_order_exists(identities(a));
    let order = byte_order(identities(a));
    let sorted = sorted_records(a);
    let other = sorted_records(b);
    assert forall|i: int| 0 <= i < sorted.len() implies (#[trigger] sorted[i])@ == other[i]@ by {
        assert(0 <= order[i] < total);
        assert(a[order[i] as int]@ == b[order[i] as int]@);
    }
    assert(record_views(sorted) =~= record_views(other));
    lemma_same_sets(stage, injection, sorted, other, total_length(left, total));
}

/// Entries with the same contents as others can be put in the order of those.
proof fn lemma_rearranged(
    entries: Seq<Result<CaptureEntry, String>>,
    wanted: Seq<Option<EntryContent>>,
) -> (moved: Seq<Result<CaptureEntry, String>>)
    requires
        entry_contents(entries).to_multiset() == wanted.to_multiset(),
    ensures
        moved.to_multiset() == entries.to_multiset(),
        entry_contents(moved) == wanted,
    decreases wanted.len(),
{
    broadcast use vstd::seq_lib::group_to_multiset_ensures;

    let held = entry_contents(entries);
    held.to_multiset_ensures();
    wanted.to_multiset_ensures();
    assert(held.len() == entries.len());
    if wanted.len() == 0 {
        assert(held =~= wanted);
        entries
    } else {
        let last = wanted.last();
        assert(wanted.contains(last));
        assert(held.to_multiset().count(last) > 0);
        assert(held.contains(last));
        let place = choose|i: int| 0 <= i < held.len() && held[i] == last;
        let rest = entries.remove(place);
        assert(entry_contents(rest) =~= held.remove(place));
        assert(wanted.remove(wanted.len() - 1) =~= wanted.drop_last());
        assert(entry_contents(rest).to_multiset() =~= wanted.drop_last().to_multiset());
        let moved = lemma_rearranged(rest, wanted.drop_last());
        let whole = moved.push(entries[place]);
        assert(entries.contains(entries[place]));
        assert(entries.to_multiset().count(entries[place]) > 0);
        assert(whole.to_multiset() =~= rest.to_multiset().insert(entries[place]));
        assert(whole.to_multiset() =~= entries.to_multiset());
        assert(entry_contents(whole) =~= entry_contents(moved).push(last));
        assert(wanted =~= wanted.drop_last().push(last));
        whole
    }
}

proof fn lemma_listed_anywhere(
    entries: Seq<Result<CaptureEntry, String>>,
    moved: Seq<Result<CaptureEntry, String>>,
    root: Seq<u8>,
)
    requires
        moved.to_multiset() == entries.to_multiset(),
        forall|i: int| 0 <= i < entries.len() ==> is_listed_in(#[trigger] entries[i], root),
    ensures
        forall|i: int| 0 <= i < moved.len() ==> is_listed_in(#[trigger] moved[i], root),
{
    broadcast use vstd::seq_lib::group_to_multiset_ensures;

    entries.to_multiset_ensures();
    moved.to_multiset_ensures();
    assert forall|i: int| 0 <= i < moved.len() implies is_listed_in(#[trigger] moved[i], root) by {
        assert(moved.contains(moved[i]));
        assert(entries.to_multiset().count(moved[i]) > 0);
        assert(entries.contains(moved[i]));
    }
}

/// An aggregate is keyed by content, not by place or by order: two capture directories that hold
/// the same named entries, listed in any order, each under its own claimed root, give the same
/// digest, the same records and the same counts.
pub proof fn law_aggregates_are_keyed_by_content(
    stage: ShimStage,
    injection: InjectionView,
    first_claimed: Seq<u8>,
    first: CaptureListing,
    second_claimed: Seq<u8>,
    second: CaptureListing,
)
    requires
        first.root is Ok,
        second.root is Ok,
        first.root->Ok_0@.len() > 0,
        second.root->Ok_0@.len() > 0,
        parts(second.root->Ok_0@) == parts(second_claimed),
        first.entries is Ok,
        second.entries is Ok,
        forall|i: int|
            0 <= i < first.entries->Ok_0@.len() ==> is_listed_in(
                #[trigger] first.entries->Ok_0@[i],
                first.root->Ok_0@,
            ),
        forall|i: int|
            0 <= i < second.entries->Ok_0@.len() ==> is_listed_in(
                #[trigger] second.entries->Ok_0@[i],
                second.root->Ok_0@,
            ),
        entry_contents(first.entries->Ok_0@).to_multiset() == entry_contents(
            second.entries->Ok_0@,
        ).to_multiset(),
        collection(stage, injection, first_claimed, first) is Ok,
    ensures
        collection(stage, injection, second_claimed, second) is Ok,
        same_aggregate(
            collection(stage, injection, first_claimed, first)->Ok_0,
            collection(stage, injection, second_claimed, second)->Ok_0,
        ),
{
    let first_root = first.root->Ok_0@;
    let second_root = second.root->Ok_0@;
    let left = first.entries->Ok_0@;
    let right = second.entries->Ok_0@;
    let moved = lemma_rearranged(left, entry_contents(right));
    lemma_listed_anywhere(left, moved, first_root);
    lemma_permuted_sets(stage, injection, first_root, left, moved);
    assert(entry_contents(moved).len() == moved.len());
    assert(entry_contents(right).len() == right.len());
    assert forall|i: int| 0 <= i < moved.len() implies entry_content(#[trigger] moved[i])
        == entry_content(right[i]) by {
        assert(entry_contents(moved)[i] == entry_content(moved[i]));
        assert(entry_contents(right)[i] == entry_content(right[i]));
    }
    lemma_moved_sets(stage, injection, first_root, moved, second_root, right);
}

/// Whether an entry is a regular file of bounded size inside `root` that holds a record of the
/// protocol under the record's own name.
pub open spec fn is_sound_entry(root: Seq<u8>, entry: Result<CaptureEntry, String>) -> bool {
    &&& entry is Ok
    &&& entry->Ok_0.status is Ok
    &&& !entry->Ok_0.status->Ok_0.symlink
    &&& entry->Ok_0.status->Ok_0.regular
    &&& entry->Ok_0.status->Ok_0.length <= 65_536
    &&& lies_within(entry->Ok_0.path@, root)
    &&& !encode_utf8("protocol-failure-"@).is_prefix_of(entry->Ok_0.name@)
    &&& entry->Ok_0.record is Parsed
    &&& held_record(entry).protocol@ == "temper-rustc-shim-1"@
    &&& held_record(entry).normalization == 1
    &&& parts(join_path(root, encode_utf8(held_record(entry).record_id@ + ".json"@))) == parts(
        entry->Ok_0.path@,
    )
}

/// The record that an entry holds.
pub open spec fn held_record(entry: Result<CaptureEntry, String>) -> CaptureRecord {
    entry->Ok_0.record->Parsed_0
}

/// The sizes of all entries together.
pub open spec fn held_bytes(entries: Seq<Result<CaptureEntry, String>>) -> int {
    entries.fold_left(
        0int,
        |total: int, entry: Result<CaptureEntry, String>|
            total + entry->Ok_0.status->Ok_0.length as int,
    )
}

/// How many records have this class.
pub open spec fn how_many(records: Seq<CaptureRecord>, class: InvocationClass) -> nat {
    records.filter(|record: CaptureRecord| record.class == class).len()
}

/// Whether a record belongs to the stage, declares no rejection, and shows the controls exactly
/// where it compiles for the target.
pub open spec fn is_sound_record(
    record: CaptureRecord,
    stage: ShimStage,
    controls: Seq<Seq<char>>,
) -> bool {
    &&& record.stage == stage
    &&& record.rejection is None
    &&& record.class == InvocationClass::TargetCompile ==> texts(record.injected_flags@) == controls
    &&& record.class != InvocationClass::TargetCompile ==> record.injected_flags@.len() == 0
}

proof fn lemma_sound_entry(root: Seq<u8>, entry: Result<CaptureEntry, String>)
    ensures
        entry_outcome(root, entry) is Ok <==> is_sound_entry(root, entry),
        is_sound_entry(root, entry) ==> entry_outcome(root, entry)->Ok_0 == held_record(entry),
{
}

proof fn lemma_held_bytes(root: Seq<u8>, entries: Seq<Result<CaptureEntry, String>>, count: int)
    requires
        0 <= count <= entries.len(),
        forall|i: int| 0 <= i < count ==> is_sound_entry(root, #[trigger] entries[i]),
    ensures
        held_bytes(entries.take(count)) == total_length(entries, count),
    decreases count,
{
    let some = entries.take(count);
    if count > 0 {
        lemma_held_bytes(root, entries, count - 1);
        assert(some.drop_last() =~= entries.take(count - 1));
        assert(is_sound_entry(root, entries[count - 1]));
    }
}

proof fn lemma_how_many(records: Seq<CaptureRecord>, class: InvocationClass, count: int)
    requires
        0 <= count <= records.len(),
    ensures
        class_count(records, class, count) == how_many(records.take(count), class),
    decreases count,
{
    reveal(Seq::filter);
    let some = records.take(count);
    if count > 0 {
        lemma_how_many(records, class, count - 1);
        assert(some.drop_last() =~= records.take(count - 1));
    }
}

proof fn lemma_sound_set(
    records: Seq<CaptureRecord>,
    stage: ShimStage,
    controls: Seq<Seq<char>>,
    from: int,
)
    requires
        0 <= from <= records.len(),
    ensures
        (first_set_defect(records, stage, from) is None && first_rejection(records, from) is None
            && first_injection_defect(records, controls, from) is None) <==> (forall|i: int|
            from <= i < records.len() ==> is_sound_record(#[trigger] records[i], stage, controls)
                && !repeats_identity(records, i)),
    decreases records.len() - from,
{
    if from < records.len() {
        lemma_sound_set(records, stage, controls, from + 1);
        if forall|i: int|
            from <= i < records.len() ==> is_sound_record(#[trigger] records[i], stage, controls)
                && !repeats_identity(records, i) {
            assert(is_sound_record(records[from], stage, controls));
        }
    }
}

proof fn lemma_no_repeats(records: Seq<CaptureRecord>)
    ensures
        (forall|i: int| 0 <= i < records.len() ==> !#[trigger] repeats_identity(records, i))
            <==> unique_identities(records),
{
    if unique_identities(records) {
        assert forall|i: int| 0 <= i < records.len() implies !#[trigger] repeats_identity(
            records,
            i,
        ) by {
            if repeats_identity(records, i) {
                let j = choose|j: int|
                    0 <= j < i && (#[trigger] records[j]).record_id@ == records[i].record_id@;
                assert(records[j].record_id@ != records[i].record_id@);
            }
        }
    }
    if forall|i: int| 0 <= i < records.len() ==> !#[trigger] repeats_identity(records, i) {
        assert forall|i: int, j: int| 0 <= i < j < records.len() implies (
        #[trigger] records[i]).record_id@ != (#[trigger] records[j]).record_id@ by {
            assert(!repeats_identity(records, j));
        }
    }
}

/// An accepted capture set holds the record of every entry and no other, in the order of their
/// identities, with the counts, sizes and digest of all of them.
pub proof fn law_accepted_sets_hold_every_entry(
    stage: ShimStage,
    injection: InjectionView,
    claimed: Seq<u8>,
    listing: CaptureListing,
)
    requires
        collection(stage, injection, claimed, listing) is Ok,
    ensures
        listing.root is Ok && listing.entries is Ok,
        ({
            let found = collection(stage, injection, claimed, listing)->Ok_0;
            let entries = listing.entries->Ok_0@;
            let root = listing.root->Ok_0@;
            &&& parts(root) == parts(claimed)
            &&& forall|i: int| 0 <= i < entries.len() ==> is_sound_entry(root, #[trigger] entries[i])
            &&& found.records.to_multiset() == entries.map_values(
                |entry: Result<CaptureEntry, String>| held_record(entry),
            ).to_multiset()
            &&& in_identity_order(found.records)
            &&& unique_identities(found.records)
            &&& found.stage == stage
            &&& found.record_count == entries.len()
            &&& found.capture_bytes == held_bytes(entries)
            &&& found.target_compilations == how_many(
                found.records,
                InvocationClass::TargetCompile,
            )
            &&& found.host_compilations == how_many(found.records, InvocationClass::HostCompile)
            &&& found.probes == how_many(found.records, InvocationClass::Probe)
            &&& found.other_invocations == how_many(found.records, InvocationClass::Other)
            &&& found.injected_invocations == if injection is Nothing {
                0
            } else {
                found.target_compilations
            }
            &&& found.capture_digest == sha256_text(
                frame(
                    sorted_bytes(
                        found.records.map_values(
                            |record: CaptureRecord| encode_utf8(record.post_digest@),
                        ),
                    ),
                ),
            )
        }),
{
    let found = collection(stage, injection, claimed, listing)->Ok_0;
    let entries = listing.entries->Ok_0@;
    let root = listing.root->Ok_0@;
    let count = entries.len() as int;
    let total = found.records.len() as int;
    lemma_scan_accepts(root, entries, count);
    assert(entries.take(count) =~= entries);
    assert forall|i: int| 0 <= i < entries.len() implies is_sound_entry(
        root,
        #[trigger] entries[i],
    ) by {
        lemma_sound_entry(root, entries[i]);
    }
    let held = entries.map_values(|entry: Result<CaptureEntry, String>| held_record(entry));
    assert(entry_records(root, entries) =~= held) by {
        assert forall|i: int| 0 <= i < entries.len() implies entry_records(root, entries)[i]
            == held[i] by {
            lemma_sound_entry(root, entries[i]);
        }
    }
    lemma_byte_order_exists(identities(held));
    lemma_sorted_records(held);
    found.records.to_multiset_ensures();
    held.to_multiset_ensures();
    lemma_held_bytes(root, entries, count);
    lemma_sound_set(found.records, stage, identifiers_of(injection), 0);
    lemma_no_repeats(found.records);
    assert(found.records.take(total) =~= found.records);
    lemma_how_many(found.records, InvocationClass::TargetCompile, total);
    lemma_how_many(found.records, InvocationClass::HostCompile, total);
    lemma_how_many(found.records, InvocationClass::Probe, total);
    lemma_how_many(found.records, InvocationClass::Other, total);
    assert(post_digests(found.records) =~= found.records.map_values(
        |record: CaptureRecord| encode_utf8(record.post_digest@),
    ));
}

/// A capture set is accepted exactly where its directory is the claimed one, its entries are sound
/// and within their bounds, its records are sound and differ, and one of them compiles for the
/// target.
pub proof fn law_capture_sets_are_accepted_exactly(
    stage: ShimStage,
    injection: InjectionView,
    claimed: Seq<u8>,
    listing: CaptureListing,
)
    requires
        listing.root is Ok,
        listing.entries is Ok,
    ensures
        ({
            let entries = listing.entries->Ok_0@;
            let root = listing.root->Ok_0@;
            let held = entries.map_values(
                |entry: Result<CaptureEntry, String>| held_record(entry),
            );
            let controls = match injection {
                InjectionView::Nothing => Seq::<Seq<char>>::empty(),
                InjectionView::Generate(_) => seq!["profile-generate"@],
                InjectionView::Use(_) => seq!["profile-use"@, "pgo-warn-missing-function"@],
            };
            collection(stage, injection, claimed, listing) is Ok <==> {
                &&& parts(root) == parts(claimed)
                &&& forall|i: int|
                    0 <= i < entries.len() ==> is_sound_entry(root, #[trigger] entries[i])
                &&& entries.len() <= 10_000
                &&& held_bytes(entries) <= 33_554_432
                &&& forall|i: int|
                    0 <= i < held.len() ==> is_sound_record(#[trigger] held[i], stage, controls)
                &&& unique_identities(held)
                &&& exists|i: int|
                    0 <= i < held.len() && (#[trigger] held[i]).class
                        == InvocationClass::TargetCompile
            }
        }),
{
    let entries = listing.entries->Ok_0@;
    let root = listing.root->Ok_0@;
    let count = entries.len() as int;
    let held = entries.map_values(|entry: Result<CaptureEntry, String>| held_record(entry));
    let controls = identifiers_of(injection);
    let sound = forall|i: int| 0 <= i < count ==> is_sound_entry(root, #[trigger] entries[i]);
    lemma_scan_accepts(root, entries, count);
    assert(entries.take(count) =~= entries);
    assert(sound <==> (forall|i: int|
        0 <= i < count ==> entry_outcome(root, #[trigger] entries[i]) is Ok)) by {
        assert forall|i: int| 0 <= i < count implies (is_sound_entry(root, #[trigger] entries[i])
            <==> entry_outcome(root, entries[i]) is Ok) by {
            lemma_sound_entry(root, entries[i]);
        }
    }
    if sound && count <= 10_000 {
        assert(entry_records(root, entries) =~= held) by {
            assert forall|i: int| 0 <= i < entries.len() implies entry_records(root, entries)[i]
                == held[i] by {
                lemma_sound_entry(root, entries[i]);
            }
        }
        lemma_held_bytes(root, entries, count);
        lemma_byte_order_exists(identities(held));
        lemma_sorted_records(held);
        let records = sorted_records(held);
        lemma_same_members(held, records);
        lemma_sound_set(records, stage, controls, 0);
        lemma_no_repeats(records);
        lemma_target_counted(records, records.len() as int);
        assert(controls =~= match injection {
            InjectionView::Nothing => Seq::<Seq<char>>::empty(),
            InjectionView::Generate(_) => seq!["profile-generate"@],
            InjectionView::Use(_) => seq!["profile-use"@, "pgo-warn-missing-function"@],
        });
        assert((forall|i: int|
            0 <= i < records.len() ==> is_sound_record(#[trigger] records[i], stage, controls))
            <==> (forall|i: int|
            0 <= i < held.len() ==> is_sound_record(#[trigger] held[i], stage, controls))) by {
            lemma_soundness_moves(held, records, stage, controls);
            lemma_soundness_moves(records, held, stage, controls);
        }
    }
}

proof fn lemma_soundness_moves(
    left: Seq<CaptureRecord>,
    right: Seq<CaptureRecord>,
    stage: ShimStage,
    controls: Seq<Seq<char>>,
)
    requires
        left.to_multiset() == right.to_multiset(),
    ensures
        (forall|i: int|
            0 <= i < left.len() ==> is_sound_record(#[trigger] left[i], stage, controls)) ==> (
        forall|i: int|
            0 <= i < right.len() ==> is_sound_record(#[trigger] right[i], stage, controls)),
{
    broadcast use vstd::seq_lib::group_to_multiset_ensures;

    left.to_multiset_ensures();
    right.to_multiset_ensures();
    if forall|i: int| 0 <= i < left.len() ==> is_sound_record(#[trigger] left[i], stage, controls) {
        assert forall|i: int| 0 <= i < right.len() implies is_sound_record(
            #[trigger] right[i],
            stage,
            controls,
        ) by {
            assert(right.contains(right[i]));
            assert(left.to_multiset().count(right[i]) > 0);
            assert(left.contains(right[i]));
        }
    }
}

proof fn lemma_target_counted(records: Seq<CaptureRecord>, count: int)
    requires
        0 <= count <= records.len(),
    ensures
        class_count(records, InvocationClass::TargetCompile, count) >= 0,
        class_count(records, InvocationClass::TargetCompile, count) > 0 <==> exists|i: int|
            0 <= i < count && (#[trigger] records[i]).class == InvocationClass::TargetCompile,
    decreases count,
{
    if count > 0 {
        lemma_target_counted(records, count - 1);
    }
}

proof fn lemma_same_members(left: Seq<CaptureRecord>, right: Seq<CaptureRecord>)
    requires
        left.to_multiset() == right.to_multiset(),
    ensures
        unique_identities(left) <==> unique_identities(right),
        (exists|i: int|
            0 <= i < left.len() && (#[trigger] left[i]).class == InvocationClass::TargetCompile)
            <==> (exists|i: int|
            0 <= i < right.len() && (#[trigger] right[i]).class == InvocationClass::TargetCompile),
{
    lemma_members_move(left, right);
    lemma_members_move(right, left);
}

proof fn lemma_members_move(left: Seq<CaptureRecord>, right: Seq<CaptureRecord>)
    requires
        left.to_multiset() == right.to_multiset(),
    ensures
        unique_identities(left) ==> unique_identities(right),
        (exists|i: int|
            0 <= i < left.len() && (#[trigger] left[i]).class == InvocationClass::TargetCompile)
            ==> (exists|i: int|
            0 <= i < right.len() && (#[trigger] right[i]).class == InvocationClass::TargetCompile),
{
    broadcast use vstd::seq_lib::group_to_multiset_ensures;

    left.to_multiset_ensures();
    right.to_multiset_ensures();
    if exists|i: int|
        0 <= i < left.len() && (#[trigger] left[i]).class == InvocationClass::TargetCompile {
        let i = choose|i: int|
            0 <= i < left.len() && (#[trigger] left[i]).class == InvocationClass::TargetCompile;
        assert(left.contains(left[i]));
        assert(right.to_multiset().count(left[i]) > 0);
        assert(right.contains(left[i]));
        let j = choose|j: int| 0 <= j < right.len() && right[j] == left[i];
        assert(right[j].class == InvocationClass::TargetCompile);
    }
    if unique_identities(left) {
        assert forall|i: int, j: int| 0 <= i < j < right.len() implies (
        #[trigger] right[i]).record_id@ != (#[trigger] right[j]).record_id@ by {
            if right[i].record_id@ == right[j].record_id@ {
                let a = right[i];
                let b = right[j];
                assert(right.contains(a) && right.contains(b));
                assert(left.to_multiset().count(a) > 0 && left.to_multiset().count(b) > 0);
                assert(left.contains(a) && left.contains(b));
                let p = choose|p: int| 0 <= p < left.len() && left[p] == a;
                let q = choose|q: int| 0 <= q < left.len() && left[q] == b;
                if p < q {
                    assert(left[p].record_id@ != left[q].record_id@);
                } else if q < p {
                    assert(left[q].record_id@ != left[p].record_id@);
                } else {
                    lemma_twice_counted(right, i, j);
                    lemma_once_counted(left, p);
                }
            }
        }
    }
}

proof fn lemma_twice_counted(records: Seq<CaptureRecord>, i: int, j: int)
    requires
        0 <= i < j < records.len(),
        records[i] == records[j],
    ensures
        records.to_multiset().count(records[i]) >= 2,
{
    broadcast use vstd::seq_lib::group_to_multiset_ensures;

    records.to_multiset_ensures();
    let rest = records.remove(j);
    rest.to_multiset_ensures();
    assert(rest[i] == records[i]);
    assert(rest.contains(records[i]));
    assert(rest.to_multiset().count(records[i]) > 0);
    assert(rest.to_multiset() =~= records.to_multiset().remove(records[j]));
}

proof fn lemma_once_counted(records: Seq<CaptureRecord>, place: int)
    requires
        0 <= place < records.len(),
        unique_identities(records),
    ensures
        records.to_multiset().count(records[place]) == 1,
{
    broadcast use vstd::seq_lib::group_to_multiset_ensures;

    records.to_multiset_ensures();
    let rest = records.remove(place);
    rest.to_multiset_ensures();
    assert(rest.to_multiset() =~= records.to_multiset().remove(records[place]));
    assert(records.contains(records[place]));
    if rest.contains(records[place]) {
        let i = choose|i: int| 0 <= i < rest.len() && rest[i] == records[place];
        if i < place {
            assert(records[i].record_id@ != records[place].record_id@);
        } else {
            assert(records[i + 1] == rest[i]);
            assert(records[place].record_id@ != records[i + 1].record_id@);
        }
    }
    assert(rest.to_multiset().count(records[place]) == 0);
}

} // verus!
