//! Workload invocations: what they run, how they are watched, and what they come to.

use vstd::prelude::*;
use vstd::slice::slice_to_vec;
use vstd::string::*;
use vstd::utf8::*;

use crate::cargo::StreamRead;
use crate::interposition::{variable, variable_pairs, Variable};
use crate::measurement::{
    error_message, MeasurementError, CONFIRMATION_PAIR_COUNT, SCREENING_SAMPLE_COUNT, WARMUP_COUNT,
};
use crate::text::{
    byte_strings, characters, copy_byte_strings, find_letter, join_texts, joined_texts,
    letter_place, lines, lines_of, lossy, lossy_text, optional_text, text2, text3, text4, texts,
};

verus! {

/// The bytes that one stream of a workload may print.
pub const OUTPUT_LIMIT_BYTES: usize = 1_048_576;

/// How long the monitor sleeps between two observations, in milliseconds.
pub const MONITOR_INTERVAL_MS: u64 = 5;

/// How long a process group may take to end after it was asked to, in nanoseconds.
pub const TERMINATION_GRACE_NS: u128 = 250_000_000;

/// How long a killed child may take to be reaped, in nanoseconds.
pub const REAP_DEADLINE_NS: u128 = 2_000_000_000;

#[derive(Clone, Copy, Debug, PartialEq, Eq, Structural)]
pub enum WorkloadFailureKind {
    InvalidCandidate,
    SpawnFailed,
    NonzeroExit,
    Timeout,
    Interrupted,
    OutputLimit,
    CaptureFailed,
    MeasurementFailed,
}

/// A failed workload.
#[derive(Debug)]
pub struct WorkloadFailure {
    pub kind: WorkloadFailureKind,
    pub message: String,
    pub bounded_diagnostics: String,
    pub diagnostics_truncated: bool,
}

/// A failed workload, as sequences.
#[verifier::ext_equal]
pub struct WorkloadFailureView {
    pub kind: WorkloadFailureKind,
    pub message: Seq<char>,
    pub bounded_diagnostics: Seq<char>,
    pub diagnostics_truncated: bool,
}

impl View for WorkloadFailure {
    type V = WorkloadFailureView;

    open spec fn view(&self) -> WorkloadFailureView {
        WorkloadFailureView {
            kind: self.kind,
            message: self.message@,
            bounded_diagnostics: self.bounded_diagnostics@,
            diagnostics_truncated: self.diagnostics_truncated,
        }
    }
}

/// A failure without any output.
pub open spec fn plain_failure(kind: WorkloadFailureKind, message: Seq<char>) -> WorkloadFailureView {
    WorkloadFailureView {
        kind,
        message,
        bounded_diagnostics: Seq::empty(),
        diagnostics_truncated: false,
    }
}

/// Which stream of a workload something is about.
#[derive(Clone, Copy, Debug, PartialEq, Eq, Structural)]
pub enum StreamKind {
    Stdout,
    Stderr,
}

/// The name of a stream.
pub open spec fn stream_label(stream: StreamKind) -> Seq<char> {
    match stream {
        StreamKind::Stdout => "stdout"@,
        StreamKind::Stderr => "stderr"@,
    }
}

impl StreamKind {
    pub fn label(self) -> (label: &'static str)
        ensures
            label@ == stream_label(self),
    {
        match self {
            StreamKind::Stdout => "stdout",
            StreamKind::Stderr => "stderr",
        }
    }
}

/// What was captured of a stream.
#[derive(Debug)]
pub struct CapturedStream {
    pub bytes: Vec<u8>,
    pub truncated: bool,
    pub error: Option<String>,
}

/// What was captured of a stream, as sequences.
#[verifier::ext_equal]
pub struct CaptureView {
    pub bytes: Seq<u8>,
    pub truncated: bool,
    pub error: Option<Seq<char>>,
}

impl View for CapturedStream {
    type V = CaptureView;

    open spec fn view(&self) -> CaptureView {
        CaptureView {
            bytes: self.bytes@,
            truncated: self.truncated,
            error: optional_text(self.error),
        }
    }
}

/// What a reader of a stream tells the monitor.
#[derive(Clone, Copy, Debug, PartialEq, Eq, Structural)]
pub enum ReaderEvent {
    Finished(StreamKind),
    Limit(StreamKind),
    Failed(StreamKind),
}

/// A capture after one read, and what the reader tells of it; nothing while it goes on.
pub open spec fn captured(capture: CaptureView, stream: StreamKind, read: StreamRead) -> (
    CaptureView,
    Option<ReaderEvent>,
) {
    let room = if capture.bytes.len() >= OUTPUT_LIMIT_BYTES {
        0
    } else {
        OUTPUT_LIMIT_BYTES - capture.bytes.len()
    };
    match read {
        StreamRead::Ended => (capture, Some(ReaderEvent::Finished(stream))),
        StreamRead::Chunk(found) => if found@.len() > room {
            (
                CaptureView {
                    bytes: capture.bytes + found@.take(room),
                    truncated: true,
                    ..capture
                },
                Some(ReaderEvent::Limit(stream)),
            )
        } else {
            (CaptureView { bytes: capture.bytes + found@, ..capture }, None)
        },
        StreamRead::Failed(error) => (
            CaptureView { error: Some(error@), ..capture },
            Some(ReaderEvent::Failed(stream)),
        ),
    }
}

impl CapturedStream {
    pub fn new() -> (capture: CapturedStream)
        ensures
            capture@ == (CaptureView { bytes: Seq::empty(), truncated: false, error: None }),
    {
        let bytes: Vec<u8> = Vec::new();
        assert(bytes@ =~= Seq::<u8>::empty());
        CapturedStream { bytes, truncated: false, error: None }
    }

    /// The captured bytes, as text.
    pub fn text(&self) -> (text: String)
        ensures
            text@ == lossy_text(self@.bytes),
    {
        lossy(self.bytes.as_slice())
    }

    /// Takes one read of a stream, and says what the monitor is told; nothing while the capture
    /// goes on.
    pub fn capture_bounded(&mut self, stream: StreamKind, read: StreamRead) -> (event: Option<
        ReaderEvent,
    >)
        ensures
            (final(self)@, event) == captured(old(self)@, stream, read),
    {
        match read {
            StreamRead::Ended => Some(ReaderEvent::Finished(stream)),
            StreamRead::Chunk(found) => {
                let length: usize = self.bytes.len();
                let room: usize = if length >= OUTPUT_LIMIT_BYTES {
                    0
                } else {
                    OUTPUT_LIMIT_BYTES - length
                };
                let total: usize = found.len();
                if total > room {
                    let mut retained = slice_to_vec(&found.as_slice()[0..room]);
                    assert(found@.subrange(0, room as int) =~= found@.take(room as int));
                    self.bytes.append(&mut retained);
                    self.truncated = true;
                    Some(ReaderEvent::Limit(stream))
                } else {
                    let mut all = found;
                    self.bytes.append(&mut all);
                    None
                }
            },
            StreamRead::Failed(error) => {
                self.error = Some(error);
                Some(ReaderEvent::Failed(stream))
            },
        }
    }
}

/// A capture never exceeds its limit.
pub proof fn law_captures_stay_bounded(capture: CaptureView, stream: StreamKind, read: StreamRead)
    requires
        capture.bytes.len() <= OUTPUT_LIMIT_BYTES,
    ensures
        captured(capture, stream, read).0.bytes.len() <= OUTPUT_LIMIT_BYTES,
        captured(capture, stream, read).0.truncated ==> capture.truncated || captured(
            capture,
            stream,
            read,
        ).1 == Some(ReaderEvent::Limit(stream)),
{
}

/// Whether a line assigns a named variable.
pub open spec fn is_environment_entry(line: Seq<char>) -> bool {
    match letter_place(line, '=', 0) {
        Some(place) => place > 0,
        None => false,
    }
}

/// A line without the variable that it assigns.
pub open spec fn redacted_line(line: Seq<char>) -> Seq<char> {
    if is_environment_entry(line) {
        "<redacted environment entry>"@
    } else {
        line
    }
}

/// A text without the variables that its lines assign.
pub open spec fn redacted(text: Seq<char>) -> Seq<char> {
    joined_texts(lines_of(text).map_values(|line: Seq<char>| redacted_line(line)), "\n"@)
}

/// Removes the variables that the lines of a text assign.
pub fn redact_environment_lines(text: &str) -> (result: String)
    ensures
        result@ == redacted(text@),
{
    let found = lines(text);
    let ghost expected = lines_of(text@).map_values(|line: Seq<char>| redacted_line(line));
    let mut kept: Vec<String> = Vec::new();
    let mut index: usize = 0;
    while index < found.len()
        invariant
            index <= found@.len(),
            texts(found@) == lines_of(text@),
            expected == lines_of(text@).map_values(|line: Seq<char>| redacted_line(line)),
            texts(kept@) == expected.take(index as int),
        decreases found@.len() - index,
    {
        let ghost before = kept@;
        assert(texts(found@)[index as int] == found@[index as int]@);
        let letters = characters(found[index].as_str());
        let entry: bool = match find_letter(letters.as_slice(), '=', 0) {
            Some(place) => place > 0,
            None => false,
        };
        let line = if entry {
            "<redacted environment entry>".to_owned()
        } else {
            found[index].clone()
        };
        assert(line@ == expected[index as int]);
        kept.push(line);
        assert(texts(kept@) =~= texts(before).push(line@));
        assert(expected.take(index + 1) =~= expected.take(index as int).push(
            expected[index as int],
        ));
        index = index + 1;
    }
    assert(expected.take(index as int) =~= expected);
    join_texts(&kept, "\n")
}

proof fn lemma_no_letter(text: Seq<char>, letter: char, from: int)
    requires
        0 <= from,
        forall|i: int| from <= i < text.len() ==> text[i] != letter,
    ensures
        letter_place(text, letter, from) is None,
    decreases text.len() - from,
{
    if from < text.len() {
        lemma_no_letter(text, letter, from + 1);
    }
}

/// No line that is kept assigns a named variable.
pub proof fn law_redacted_lines_hold_no_entries(line: Seq<char>)
    ensures
        !is_environment_entry(redacted_line(line)),
{
    reveal_strlit("<redacted environment entry>");
    lemma_no_letter("<redacted environment entry>"@, '=', 0);
}

/// What a failed workload printed, without the variables of its environment.
pub open spec fn shown_captures(stdout: CaptureView, stderr: CaptureView) -> Seq<char> {
    "stdout:\n"@ + redacted(lossy_text(stdout.bytes)) + "\nstderr:\n"@ + redacted(
        lossy_text(stderr.bytes),
    )
}

/// What a failed workload printed, without the variables of its environment.
pub fn captured_diagnostics(stdout: &CapturedStream, stderr: &CapturedStream) -> (text: String)
    ensures
        text@ == shown_captures(stdout@, stderr@),
{
    let first = redact_environment_lines(stdout.text().as_str());
    let second = redact_environment_lines(stderr.text().as_str());
    text4("stdout:\n", first.as_str(), "\nstderr:\n", second.as_str())
}

/// A failure with what the workload printed.
pub open spec fn failure_with_captures(
    kind: WorkloadFailureKind,
    message: Seq<char>,
    stdout: CaptureView,
    stderr: CaptureView,
) -> WorkloadFailureView {
    WorkloadFailureView {
        kind,
        message,
        bounded_diagnostics: shown_captures(stdout, stderr),
        diagnostics_truncated: stdout.truncated || stderr.truncated,
    }
}

/// The message of an unstable baseline, whose relative deviation is shown as `relative_mad`.
pub open spec fn unstable_message(relative_mad: Seq<char>) -> Seq<char> {
    "Baseline screening was unstable (relative MAD "@ + relative_mad
        + "); no candidate can be compared safely."@
}

impl WorkloadFailure {
    pub fn new(kind: WorkloadFailureKind, message: String) -> (failure: WorkloadFailure)
        ensures
            failure@ == plain_failure(kind, message@),
    {
        let empty = String::new();
        assert(empty@ =~= Seq::<char>::empty());
        WorkloadFailure { kind, message, bounded_diagnostics: empty, diagnostics_truncated: false }
    }

    pub fn with_captures(
        kind: WorkloadFailureKind,
        message: String,
        stdout: &CapturedStream,
        stderr: &CapturedStream,
    ) -> (failure: WorkloadFailure)
        ensures
            failure@ == failure_with_captures(kind, message@, stdout@, stderr@),
    {
        WorkloadFailure {
            kind,
            message,
            bounded_diagnostics: captured_diagnostics(stdout, stderr),
            diagnostics_truncated: stdout.truncated || stderr.truncated,
        }
    }

    pub fn measurement(error: &MeasurementError) -> (failure: WorkloadFailure)
        ensures
            failure@ == plain_failure(
                WorkloadFailureKind::MeasurementFailed,
                "measurement-v1 rejected the sample set: "@ + error_message(*error),
            ),
    {
        WorkloadFailure::new(
            WorkloadFailureKind::MeasurementFailed,
            text2("measurement-v1 rejected the sample set: ", error.message().as_str()),
        )
    }

    /// The failure of a baseline whose relative deviation, shown with six decimals, is
    /// `relative_mad`.
    pub fn unstable_baseline(relative_mad: &str) -> (failure: WorkloadFailure)
        ensures
            failure@ == plain_failure(
                WorkloadFailureKind::MeasurementFailed,
                unstable_message(relative_mad@),
            ),
    {
        WorkloadFailure::new(
            WorkloadFailureKind::MeasurementFailed,
            text3(
                "Baseline screening was unstable (relative MAD ",
                relative_mad,
                "); no candidate can be compared safely.",
            ),
        )
    }
}

/// A workload: an executable with literal arguments. It is never run through a shell.
#[derive(Debug)]
pub struct WorkloadSpec {
    pub executable: Vec<u8>,
    pub arguments: Vec<Vec<u8>>,
    pub workspace_root: Vec<u8>,
    pub timeout_ns: u128,
}

/// A workload, as sequences.
pub struct WorkloadView {
    pub executable: Seq<u8>,
    pub arguments: Seq<Seq<u8>>,
    pub workspace_root: Seq<u8>,
    pub timeout_ns: u128,
}

impl View for WorkloadSpec {
    type V = WorkloadView;

    open spec fn view(&self) -> WorkloadView {
        WorkloadView {
            executable: self.executable@,
            arguments: byte_strings(self.arguments@),
            workspace_root: self.workspace_root@,
            timeout_ns: self.timeout_ns,
        }
    }
}

/// The workload of a command line, or why there is none.
pub open spec fn workload_outcome(
    argv: Seq<Seq<u8>>,
    workspace_root: Seq<u8>,
    canonical: Result<Vec<u8>, String>,
    timeout_ns: u128,
) -> Result<WorkloadView, WorkloadFailureView> {
    if argv.len() == 0 {
        Err(
            plain_failure(
                WorkloadFailureKind::SpawnFailed,
                "The workload executable is missing."@,
            ),
        )
    } else {
        match canonical {
            Err(error) => Err(
                plain_failure(
                    WorkloadFailureKind::SpawnFailed,
                    "The Cargo workspace root "@ + lossy_text(workspace_root)
                        + " could not be canonicalized: "@ + error@,
                ),
            ),
            Ok(root) => Ok(
                WorkloadView {
                    executable: argv[0],
                    arguments: argv.skip(1),
                    workspace_root: root@,
                    timeout_ns,
                },
            ),
        }
    }
}

/// What the file system says of a candidate executable.
#[derive(Debug)]
pub struct CandidateFile {
    pub canonical: Result<Vec<u8>, String>,
    pub regular: bool,
}

/// The canonical candidate, or why it cannot be run.
pub open spec fn candidate_outcome(candidate: Seq<u8>, probe: CandidateFile) -> Result<
    Seq<u8>,
    WorkloadFailureView,
> {
    match probe.canonical {
        Err(error) => Err(
            plain_failure(
                WorkloadFailureKind::InvalidCandidate,
                "Candidate executable "@ + lossy_text(candidate) + " could not be canonicalized: "@
                    + error@,
            ),
        ),
        Ok(path) => if probe.regular {
            Ok(path@)
        } else {
            Err(
                plain_failure(
                    WorkloadFailureKind::InvalidCandidate,
                    "Candidate executable "@ + lossy_text(path@) + " is not a file."@,
                ),
            )
        },
    }
}

/// Decides whether a candidate can be run.
pub fn canonical_candidate(candidate: &[u8], probe: CandidateFile) -> (path: Result<
    Vec<u8>,
    WorkloadFailure,
>)
    ensures
        match path {
            Ok(found) => candidate_outcome(candidate@, probe) == Ok::<
                Seq<u8>,
                WorkloadFailureView,
            >(found@),
            Err(failure) => candidate_outcome(candidate@, probe) == Err::<
                Seq<u8>,
                WorkloadFailureView,
            >(failure@),
        },
{
    let path = match probe.canonical {
        Ok(path) => path,
        Err(error) => return Err(
            WorkloadFailure::new(
                WorkloadFailureKind::InvalidCandidate,
                text4(
                    "Candidate executable ",
                    lossy(candidate).as_str(),
                    " could not be canonicalized: ",
                    error.as_str(),
                ),
            ),
        ),
    };
    if probe.regular {
        Ok(path)
    } else {
        Err(
            WorkloadFailure::new(
                WorkloadFailureKind::InvalidCandidate,
                text3(
                    "Candidate executable ",
                    lossy(path.as_slice()).as_str(),
                    " is not a file.",
                ),
            ),
        )
    }
}

impl WorkloadSpec {
    /// The workload of a command line, where `canonical` is the canonical workspace root.
    pub fn with_timeout(
        argv: &Vec<Vec<u8>>,
        workspace_root: &[u8],
        canonical: Result<Vec<u8>, String>,
        timeout_ns: u128,
    ) -> (workload: Result<WorkloadSpec, WorkloadFailure>)
        ensures
            match workload {
                Ok(found) => workload_outcome(
                    byte_strings(argv@),
                    workspace_root@,
                    canonical,
                    timeout_ns,
                ) == Ok::<WorkloadView, WorkloadFailureView>(found@),
                Err(failure) => workload_outcome(
                    byte_strings(argv@),
                    workspace_root@,
                    canonical,
                    timeout_ns,
                ) == Err::<WorkloadView, WorkloadFailureView>(failure@),
            },
    {
        if argv.len() == 0 {
            return Err(
                WorkloadFailure::new(
                    WorkloadFailureKind::SpawnFailed,
                    "The workload executable is missing.".to_owned(),
                ),
            );
        }
        let root = match canonical {
            Ok(path) => path,
            Err(error) => return Err(
                WorkloadFailure::new(
                    WorkloadFailureKind::SpawnFailed,
                    text4(
                        "The Cargo workspace root ",
                        lossy(workspace_root).as_str(),
                        " could not be canonicalized: ",
                        error.as_str(),
                    ),
                ),
            ),
        };
        let mut arguments = copy_byte_strings(argv);
        assert(byte_strings(arguments@).len() == arguments@.len());
        let ghost whole = arguments@;
        let executable = arguments.remove(0);
        proof {
            assert(byte_strings(whole)[0] == whole[0]@);
            assert(byte_strings(arguments@) =~= byte_strings(argv@).skip(1)) by {
                assert forall|i: int| 0 <= i < arguments@.len() implies byte_strings(
                    arguments@,
                )[i] == byte_strings(argv@).skip(1)[i] by {
                    assert(arguments@[i] == whole[i + 1]);
                    assert(byte_strings(whole)[i + 1] == whole[i + 1]@);
                }
            }
        }
        Ok(WorkloadSpec { executable, arguments, workspace_root: root, timeout_ns })
    }

    pub fn new(
        argv: &Vec<Vec<u8>>,
        workspace_root: &[u8],
        canonical: Result<Vec<u8>, String>,
        timeout_seconds: u64,
    ) -> (workload: Result<WorkloadSpec, WorkloadFailure>)
        ensures
            match workload {
                Ok(found) => workload_outcome(
                    byte_strings(argv@),
                    workspace_root@,
                    canonical,
                    (timeout_seconds * 1_000_000_000) as u128,
                ) == Ok::<WorkloadView, WorkloadFailureView>(found@),
                Err(failure) => workload_outcome(
                    byte_strings(argv@),
                    workspace_root@,
                    canonical,
                    (timeout_seconds * 1_000_000_000) as u128,
                ) == Err::<WorkloadView, WorkloadFailureView>(failure@),
            },
    {
        let timeout_ns: u128 = timeout_seconds as u128 * 1_000_000_000;
        WorkloadSpec::with_timeout(argv, workspace_root, canonical, timeout_ns)
    }

    /// The variables that a workload sees besides those it inherits: the candidate first, so that
    /// no other variable can stand for it unless it is given again.
    pub fn environment(&self, candidate: &[u8], environment: &Vec<Variable>) -> (variables: Vec<
        Variable,
    >)
        ensures
            variable_pairs(variables@) == seq![(encode_utf8("TEMPER_BINARY"@), candidate@)]
                + variable_pairs(environment@),
    {
        let mut variables: Vec<Variable> = Vec::new();
        variables.push(variable("TEMPER_BINARY", candidate));
        let ghost head = variable_pairs(variables@);
        assert(head =~= seq![(encode_utf8("TEMPER_BINARY"@), candidate@)]);
        let mut index: usize = 0;
        assert(head + variable_pairs(environment@).take(0) =~= head);
        while index < environment.len()
            invariant
                index <= environment@.len(),
                variable_pairs(variables@) == head + variable_pairs(environment@).take(
                    index as int,
                ),
            decreases environment@.len() - index,
        {
            let ghost before = variables@;
            let ghost pairs = variable_pairs(environment@);
            let copy = Variable {
                name: environment[index].name.clone(),
                value: environment[index].value.clone(),
            };
            variables.push(copy);
            assert(variable_pairs(variables@) =~= variable_pairs(before).push(
                (copy.name@, copy.value@),
            ));
            assert(pairs[index as int] == (copy.name@, copy.value@));
            assert(pairs.take(index + 1) =~= pairs.take(index as int).push(pairs[index as int]));
            assert(variable_pairs(variables@) =~= head + pairs.take(index + 1));
            index = index + 1;
        }
        assert(variable_pairs(environment@).take(index as int) =~= variable_pairs(environment@));
        variables
    }

    /// The failure of a workload that could not start.
    pub fn spawn_failure(&self, error: &str) -> (failure: WorkloadFailure)
        ensures
            failure@ == plain_failure(
                WorkloadFailureKind::SpawnFailed,
                "Workload executable "@ + lossy_text(self@.executable) + " could not start: "@
                    + error@,
            ),
    {
        WorkloadFailure::new(
            WorkloadFailureKind::SpawnFailed,
            text4(
                "Workload executable ",
                lossy(self.executable.as_slice()).as_str(),
                " could not start: ",
                error,
            ),
        )
    }
}

/// The process group of a child, or the failure of one whose number does not fit.
pub fn process_group(child: u32) -> (group: Result<i32, WorkloadFailure>)
    ensures
        match group {
            Ok(found) => found == child,
            Err(failure) => {
                &&& child > i32::MAX
                &&& failure@ == plain_failure(
                    WorkloadFailureKind::SpawnFailed,
                    "Workload process ID did not fit the Linux process-group identifier."@,
                )
            },
        },
{
    if child > 2_147_483_647 {
        return Err(
            WorkloadFailure::new(
                WorkloadFailureKind::SpawnFailed,
                "Workload process ID did not fit the Linux process-group identifier.".to_owned(),
            ),
        );
    }
    Ok(child as i32)
}

/// The failure of a child without one of its pipes.
pub fn missing_pipe(stream: StreamKind) -> (failure: WorkloadFailure)
    ensures
        failure@ == plain_failure(
            WorkloadFailureKind::CaptureFailed,
            "Workload "@ + stream_label(stream) + " pipe was unavailable."@,
        ),
{
    WorkloadFailure::new(
        WorkloadFailureKind::CaptureFailed,
        text3("Workload ", stream.label(), " pipe was unavailable."),
    )
}

/// What is known of a child that is being watched.
#[derive(Clone, Copy, Debug, PartialEq, Eq, Structural)]
pub struct Monitor {
    pub exited: bool,
    pub stdout_finished: bool,
    pub stderr_finished: bool,
}

/// What is seen of the child itself.
#[derive(Debug)]
pub enum ChildStatus {
    Running,
    Succeeded,
    /// It ended otherwise, with this status.
    Ended(String),
    Unknown(String),
}

/// One observation of a watched child.
#[derive(Debug)]
pub struct Observation {
    pub events: Vec<ReaderEvent>,
    pub interrupted: bool,
    pub child: ChildStatus,
    /// Whether the process group still exists.
    pub group: Result<bool, String>,
    pub elapsed_ns: u128,
}

/// What is to be done with a watched child.
#[derive(Debug)]
pub enum Watch {
    /// Look again after the monitor's interval.
    Continue,
    /// It ended well, and nothing of its group is left.
    Exited,
    /// Its group is to be terminated.
    Terminate(WorkloadFailureKind, String),
}

/// What is to be done with a watched child, as a sequence.
pub enum WatchView {
    Continue,
    Exited,
    Terminate(WorkloadFailureKind, Seq<char>),
}

impl View for Watch {
    type V = WatchView;

    open spec fn view(&self) -> WatchView {
        match *self {
            Watch::Continue => WatchView::Continue,
            Watch::Exited => WatchView::Exited,
            Watch::Terminate(kind, message) => WatchView::Terminate(kind, message@),
        }
    }
}

/// The monitor after the first `count` events, or why the child is to be terminated.
pub open spec fn after_events(monitor: Monitor, events: Seq<ReaderEvent>, count: int) -> Result<
    Monitor,
    (WorkloadFailureKind, Seq<char>),
>
    decreases count,
{
    if count <= 0 {
        Ok(monitor)
    } else {
        match after_events(monitor, events, count - 1) {
            Err(refusal) => Err(refusal),
            Ok(earlier) => match events[count - 1] {
                ReaderEvent::Finished(StreamKind::Stdout) => Ok(
                    Monitor { stdout_finished: true, ..earlier },
                ),
                ReaderEvent::Finished(StreamKind::Stderr) => Ok(
                    Monitor { stderr_finished: true, ..earlier },
                ),
                ReaderEvent::Limit(stream) => Err(
                    (
                        WorkloadFailureKind::OutputLimit,
                        "Workload "@ + stream_label(stream)
                            + " exceeded its bound; the artifact was rejected."@,
                    ),
                ),
                ReaderEvent::Failed(stream) => Err(
                    (
                        WorkloadFailureKind::CaptureFailed,
                        "Workload "@ + stream_label(stream) + " capture failed."@,
                    ),
                ),
            },
        }
    }
}

proof fn lemma_events_prefix(
    monitor: Monitor,
    events: Seq<ReaderEvent>,
    shorter: int,
    longer: int,
)
    requires
        0 <= shorter <= longer,
        after_events(monitor, events, shorter) is Err,
    ensures
        after_events(monitor, events, longer) == after_events(monitor, events, shorter),
    decreases longer - shorter,
{
    if shorter < longer {
        lemma_events_prefix(monitor, events, shorter, longer - 1);
    }
}

/// The monitor after it looked at the child, or why the child is to be terminated.
pub open spec fn after_child(monitor: Monitor, child: ChildStatus) -> Result<
    Monitor,
    (WorkloadFailureKind, Seq<char>),
> {
    if monitor.exited {
        Ok(monitor)
    } else {
        match child {
            ChildStatus::Running => Ok(monitor),
            ChildStatus::Succeeded => Ok(Monitor { exited: true, ..monitor }),
            ChildStatus::Ended(status) => Err(
                (
                    WorkloadFailureKind::NonzeroExit,
                    "Workload exited with "@ + status@ + "; exit status zero is required."@,
                ),
            ),
            ChildStatus::Unknown(error) => Err(
                (
                    WorkloadFailureKind::CaptureFailed,
                    "Workload status could not be observed: "@ + error@,
                ),
            ),
        }
    }
}

/// The monitor after one observation, and what is to be done. The timeout is shown as
/// `timeout_text`.
pub open spec fn watched(
    monitor: Monitor,
    seen: Observation,
    timeout_ns: u128,
    timeout_text: Seq<char>,
) -> (Monitor, WatchView) {
    match after_events(monitor, seen.events@, seen.events@.len() as int) {
        Err((kind, message)) => (monitor, WatchView::Terminate(kind, message)),
        Ok(read) => if seen.interrupted {
            (
                monitor,
                WatchView::Terminate(
                    WorkloadFailureKind::Interrupted,
                    "Workload was interrupted by SIGINT; the artifact was rejected."@,
                ),
            )
        } else {
            match after_child(read, seen.child) {
                Err((kind, message)) => (monitor, WatchView::Terminate(kind, message)),
                Ok(known) => {
                    let finished = known.stdout_finished && known.stderr_finished;
                    if finished && seen.group is Err {
                        (
                            monitor,
                            WatchView::Terminate(
                                WorkloadFailureKind::CaptureFailed,
                                "Workload process-group state could not be observed: "@
                                    + seen.group->Err_0@,
                            ),
                        )
                    } else if finished && !seen.group->Ok_0 && known.exited {
                        (known, WatchView::Exited)
                    } else if seen.elapsed_ns >= timeout_ns {
                        (
                            monitor,
                            WatchView::Terminate(
                                WorkloadFailureKind::Timeout,
                                "Workload exceeded its "@ + timeout_text
                                    + " second timeout; the artifact was rejected."@,
                            ),
                        )
                    } else {
                        (known, WatchView::Continue)
                    }
                },
            }
        },
    }
}

impl Monitor {
    pub fn new() -> (monitor: Monitor)
        ensures
            monitor == (Monitor { exited: false, stdout_finished: false, stderr_finished: false }),
    {
        Monitor { exited: false, stdout_finished: false, stderr_finished: false }
    }

    fn take_events(self, events: &Vec<ReaderEvent>) -> (taken: Result<
        Monitor,
        (WorkloadFailureKind, String),
    >)
        ensures
            match taken {
                Ok(found) => after_events(self, events@, events@.len() as int) == Ok::<
                    Monitor,
                    (WorkloadFailureKind, Seq<char>),
                >(found),
                Err(refusal) => after_events(self, events@, events@.len() as int) == Err::<
                    Monitor,
                    (WorkloadFailureKind, Seq<char>),
                >((refusal.0, refusal.1@)),
            },
    {
        let mut known: Monitor = self;
        let mut index: usize = 0;
        while index < events.len()
            invariant
                index <= events@.len(),
                after_events(self, events@, index as int) == Ok::<
                    Monitor,
                    (WorkloadFailureKind, Seq<char>),
                >(known),
            decreases events@.len() - index,
        {
            match events[index] {
                ReaderEvent::Finished(StreamKind::Stdout) => {
                    known.stdout_finished = true;
                },
                ReaderEvent::Finished(StreamKind::Stderr) => {
                    known.stderr_finished = true;
                },
                ReaderEvent::Limit(stream) => {
                    proof {
                        lemma_events_prefix(self, events@, index + 1, events@.len() as int);
                    }
                    let message = text3(
                        "Workload ",
                        stream.label(),
                        " exceeded its bound; the artifact was rejected.",
                    );
                    return Err((WorkloadFailureKind::OutputLimit, message));
                },
                ReaderEvent::Failed(stream) => {
                    proof {
                        lemma_events_prefix(self, events@, index + 1, events@.len() as int);
                    }
                    let message = text3("Workload ", stream.label(), " capture failed.");
                    return Err((WorkloadFailureKind::CaptureFailed, message));
                },
            }
            index = index + 1;
        }
        Ok(known)
    }

    /// Takes one observation of the watched child, and says what is to be done.
    pub fn monitor_child(
        &mut self,
        seen: Observation,
        timeout_ns: u128,
        timeout_text: &str,
    ) -> (watch: Watch)
        ensures
            (*final(self), watch@) == watched(*old(self), seen, timeout_ns, timeout_text@),
    {
        let mut known: Monitor = match self.take_events(&seen.events) {
            Ok(known) => known,
            Err((kind, message)) => return Watch::Terminate(kind, message),
        };
        if seen.interrupted {
            return Watch::Terminate(
                WorkloadFailureKind::Interrupted,
                "Workload was interrupted by SIGINT; the artifact was rejected.".to_owned(),
            );
        }
        if !known.exited {
            match seen.child {
                ChildStatus::Running => {},
                ChildStatus::Succeeded => {
                    known.exited = true;
                },
                ChildStatus::Ended(status) => {
                    return Watch::Terminate(
                        WorkloadFailureKind::NonzeroExit,
                        text3(
                            "Workload exited with ",
                            status.as_str(),
                            "; exit status zero is required.",
                        ),
                    );
                },
                ChildStatus::Unknown(error) => {
                    return Watch::Terminate(
                        WorkloadFailureKind::CaptureFailed,
                        text2("Workload status could not be observed: ", error.as_str()),
                    );
                },
            }
        }
        if known.stdout_finished && known.stderr_finished {
            match seen.group {
                Err(error) => {
                    return Watch::Terminate(
                        WorkloadFailureKind::CaptureFailed,
                        text2(
                            "Workload process-group state could not be observed: ",
                            error.as_str(),
                        ),
                    );
                },
                Ok(exists) => {
                    if !exists && known.exited {
                        *self = known;
                        return Watch::Exited;
                    }
                },
            }
        }
        if seen.elapsed_ns >= timeout_ns {
            return Watch::Terminate(
                WorkloadFailureKind::Timeout,
                text3(
                    "Workload exceeded its ",
                    timeout_text,
                    " second timeout; the artifact was rejected.",
                ),
            );
        }
        *self = known;
        Watch::Continue
    }
}

/// A child is only taken to have ended well once it exited successfully, both of its streams were
/// read to their end, and nothing of its process group is left.
pub proof fn law_exits_leave_nothing_behind(
    monitor: Monitor,
    seen: Observation,
    timeout_ns: u128,
    timeout_text: Seq<char>,
)
    requires
        watched(monitor, seen, timeout_ns, timeout_text).1 is Exited,
    ensures
        watched(monitor, seen, timeout_ns, timeout_text).0.exited,
        watched(monitor, seen, timeout_ns, timeout_text).0.stdout_finished,
        watched(monitor, seen, timeout_ns, timeout_text).0.stderr_finished,
        monitor.exited || seen.child is Succeeded,
        seen.group == Ok::<bool, String>(false),
        !seen.interrupted,
{
    lemma_events_keep_exit(monitor, seen.events@, seen.events@.len() as int);
}

proof fn lemma_events_keep_exit(monitor: Monitor, events: Seq<ReaderEvent>, count: int)
    requires
        after_events(monitor, events, count) is Ok,
    ensures
        after_events(monitor, events, count)->Ok_0.exited == monitor.exited,
    decreases count,
{
    if count > 0 {
        lemma_events_keep_exit(monitor, events, count - 1);
    }
}

/// A child that outlives its timeout is terminated, whatever else is seen.
pub proof fn law_timeouts_always_end(
    monitor: Monitor,
    seen: Observation,
    timeout_ns: u128,
    timeout_text: Seq<char>,
)
    requires
        seen.elapsed_ns >= timeout_ns,
    ensures
        !(watched(monitor, seen, timeout_ns, timeout_text).1 is Continue),
{
}

/// How far the termination of a process group has come.
#[derive(Clone, Copy, Debug, PartialEq, Eq, Structural)]
pub enum Termination {
    /// It was asked to end.
    Asked,
    /// It is being looked at while it may end by itself.
    Grace,
    /// It may still end by itself, and its child is being collected.
    Collecting,
    /// Its time is over, and it is being looked at once more.
    Overdue,
    /// It was killed.
    Killed,
    /// Its child is being reaped.
    Reaping,
    Over,
}

/// What was seen during a termination.
#[derive(Debug)]
pub enum TerminationEvent {
    /// A signal was sent.
    Signalled(Result<(), String>),
    /// Time since the first signal, and whether the group exists.
    Looked(u128, Result<bool, String>),
    /// Time since the reaping began, and whether the child was collected.
    Collected(u128, Result<bool, String>),
}

/// What is to be done next in a termination.
#[derive(Debug)]
pub enum TerminationAction {
    /// Look whether the group exists.
    Look,
    /// Collect the child, if it ended, and then sleep for the monitor's interval.
    CollectThenSleep,
    Kill,
    /// Collect the child, if it ended.
    Reap,
    /// Sleep for the monitor's interval, and then collect the child, if it ended.
    SleepThenReap,
    Finish(Result<(), String>),
}

/// What is to be done next in a termination, as a sequence.
pub enum TerminationActionView {
    Look,
    CollectThenSleep,
    Kill,
    Reap,
    SleepThenReap,
    Finish(Result<(), Seq<char>>),
}

impl View for TerminationAction {
    type V = TerminationActionView;

    open spec fn view(&self) -> TerminationActionView {
        match *self {
            TerminationAction::Look => TerminationActionView::Look,
            TerminationAction::CollectThenSleep => TerminationActionView::CollectThenSleep,
            TerminationAction::Kill => TerminationActionView::Kill,
            TerminationAction::Reap => TerminationActionView::Reap,
            TerminationAction::SleepThenReap => TerminationActionView::SleepThenReap,
            TerminationAction::Finish(Ok(_)) => TerminationActionView::Finish(Ok(())),
            TerminationAction::Finish(Err(error)) => TerminationActionView::Finish(Err(error@)),
        }
    }
}

/// Whether an event is one that the termination waits for.
pub open spec fn is_awaited(termination: Termination, event: TerminationEvent) -> bool {
    match termination {
        Termination::Asked | Termination::Killed => event is Signalled,
        Termination::Grace | Termination::Overdue => event is Looked,
        Termination::Collecting | Termination::Reaping => event is Collected,
        Termination::Over => false,
    }
}

/// The termination after an event, and what is to be done next.
pub open spec fn terminating(termination: Termination, event: TerminationEvent) -> (
    Termination,
    TerminationActionView,
) {
    match event {
        TerminationEvent::Signalled(Err(error)) => (
            Termination::Over,
            TerminationActionView::Finish(Err(error@)),
        ),
        TerminationEvent::Signalled(Ok(_)) => if termination == Termination::Killed {
            (Termination::Reaping, TerminationActionView::Reap)
        } else {
            (Termination::Grace, TerminationActionView::Look)
        },
        TerminationEvent::Looked(elapsed, group) => if termination == Termination::Grace && elapsed
            >= TERMINATION_GRACE_NS {
            (Termination::Overdue, TerminationActionView::Look)
        } else {
            match group {
                Err(error) => (Termination::Over, TerminationActionView::Finish(Err(error@))),
                Ok(exists) => if termination == Termination::Grace {
                    if exists {
                        (Termination::Collecting, TerminationActionView::CollectThenSleep)
                    } else {
                        (Termination::Overdue, TerminationActionView::Look)
                    }
                } else if exists {
                    (Termination::Killed, TerminationActionView::Kill)
                } else {
                    (Termination::Reaping, TerminationActionView::Reap)
                },
            }
        },
        TerminationEvent::Collected(elapsed, collected) => match collected {
            Err(error) => (Termination::Over, TerminationActionView::Finish(Err(error@))),
            Ok(reaped) => if termination == Termination::Collecting {
                (Termination::Grace, TerminationActionView::Look)
            } else if reaped {
                (Termination::Over, TerminationActionView::Finish(Ok(())))
            } else if elapsed >= REAP_DEADLINE_NS {
                (
                    Termination::Over,
                    TerminationActionView::Finish(
                        Err(
                            "direct workload child was not reaped within 2 seconds after escalation"@,
                        ),
                    ),
                )
            } else {
                (Termination::Reaping, TerminationActionView::SleepThenReap)
            },
        },
    }
}

/// Takes an event of the termination of a process group, and says what is to be done next. A
/// termination starts out `Asked`, once its group was sent the first signal.
pub fn terminate_process_group(termination: &mut Termination, event: TerminationEvent) -> (action:
    TerminationAction)
    requires
        is_awaited(*old(termination), event),
    ensures
        (*final(termination), action@) == terminating(*old(termination), event),
{
    match event {
        TerminationEvent::Signalled(Err(error)) => {
            *termination = Termination::Over;
            TerminationAction::Finish(Err(error))
        },
        TerminationEvent::Signalled(Ok(_)) => {
            if *termination == Termination::Killed {
                *termination = Termination::Reaping;
                TerminationAction::Reap
            } else {
                *termination = Termination::Grace;
                TerminationAction::Look
            }
        },
        TerminationEvent::Looked(elapsed, group) => {
            if *termination == Termination::Grace && elapsed >= TERMINATION_GRACE_NS {
                *termination = Termination::Overdue;
                return TerminationAction::Look;
            }
            match group {
                Err(error) => {
                    *termination = Termination::Over;
                    TerminationAction::Finish(Err(error))
                },
                Ok(exists) => {
                    if *termination == Termination::Grace {
                        if exists {
                            *termination = Termination::Collecting;
                            TerminationAction::CollectThenSleep
                        } else {
                            *termination = Termination::Overdue;
                            TerminationAction::Look
                        }
                    } else if exists {
                        *termination = Termination::Killed;
                        TerminationAction::Kill
                    } else {
                        *termination = Termination::Reaping;
                        TerminationAction::Reap
                    }
                },
            }
        },
        TerminationEvent::Collected(elapsed, collected) => match collected {
            Err(error) => {
                *termination = Termination::Over;
                TerminationAction::Finish(Err(error))
            },
            Ok(reaped) => {
                if *termination == Termination::Collecting {
                    *termination = Termination::Grace;
                    return TerminationAction::Look;
                }
                if reaped {
                    *termination = Termination::Over;
                    return TerminationAction::Finish(Ok(()));
                }
                if elapsed >= REAP_DEADLINE_NS {
                    *termination = Termination::Over;
                    return TerminationAction::Finish(
                        Err(
                            "direct workload child was not reaped within 2 seconds after escalation".to_owned(),
                        ),
                    );
                }
                TerminationAction::SleepThenReap
            },
        },
    }
}

/// A termination only succeeds by reaping the child, and a group is only killed once its time is
/// over and it still exists.
pub proof fn law_terminations_reap_and_escalate_late(
    termination: Termination,
    event: TerminationEvent,
)
    requires
        is_awaited(termination, event),
    ensures
        terminating(termination, event).1 == TerminationActionView::Finish(Ok(())) ==> termination
            == Termination::Reaping && event is Collected && event->Collected_1 == Ok::<
            bool,
            String,
        >(true),
        terminating(termination, event).1 is Kill ==> termination == Termination::Overdue
            && event->Looked_1 == Ok::<bool, String>(true),
        terminating(termination, event).0 == Termination::Overdue ==> event is Looked && (
        event->Looked_0 >= TERMINATION_GRACE_NS || event->Looked_1 == Ok::<bool, String>(false)),
{
}

/// How a watched child came to its end.
#[derive(Debug)]
pub enum Completion {
    /// It exited, with this status.
    Exited { success: bool, status: String },
    Terminated {
        kind: WorkloadFailureKind,
        message: String,
        termination_error: Option<String>,
    },
}

/// One finished invocation.
#[derive(Debug)]
pub struct InvocationResult {
    pub duration_ns: u64,
    pub stdout: String,
    pub stderr: String,
}

/// One finished invocation, as sequences.
pub struct InvocationView {
    pub duration_ns: u64,
    pub stdout: Seq<char>,
    pub stderr: Seq<char>,
}

impl View for InvocationResult {
    type V = InvocationView;

    open spec fn view(&self) -> InvocationView {
        InvocationView {
            duration_ns: self.duration_ns,
            stdout: self.stdout@,
            stderr: self.stderr@,
        }
    }
}

/// The message of a terminated child.
pub open spec fn termination_message(message: Seq<char>, error: Option<Seq<char>>) -> Seq<char> {
    match error {
        Some(found) => message + " Process-group cleanup reported: "@ + found,
        None => message,
    }
}

/// What an invocation came to, once both streams are known.
pub open spec fn completed(
    stdout: CaptureView,
    stderr: CaptureView,
    completion: Completion,
    elapsed_ns: u128,
) -> Result<InvocationView, WorkloadFailureView> {
    if stdout.error is Some || stderr.error is Some {
        let error = if stdout.error is Some {
            stdout.error->0
        } else {
            stderr.error->0
        };
        Err(
            failure_with_captures(
                WorkloadFailureKind::CaptureFailed,
                "Workload output could not be captured: "@ + error,
                stdout,
                stderr,
            ),
        )
    } else if stdout.truncated || stderr.truncated {
        let stream = if stdout.truncated {
            "stdout"@
        } else {
            "stderr"@
        };
        Err(
            failure_with_captures(
                WorkloadFailureKind::OutputLimit,
                "Workload "@ + stream + " exceeded the 1 MiB limit; the artifact was rejected."@,
                stdout,
                stderr,
            ),
        )
    } else {
        match completion {
            Completion::Terminated { kind, message, termination_error } => Err(
                failure_with_captures(
                    kind,
                    termination_message(message@, optional_text(termination_error)),
                    stdout,
                    stderr,
                ),
            ),
            Completion::Exited { success, status } => if !success {
                Err(
                    failure_with_captures(
                        WorkloadFailureKind::NonzeroExit,
                        "Workload exited with "@ + status@ + "; exit status zero is required."@,
                        stdout,
                        stderr,
                    ),
                )
            } else if elapsed_ns > u64::MAX {
                Err(
                    plain_failure(
                        WorkloadFailureKind::MeasurementFailed,
                        "Workload duration exceeded the measurement-v1 integer range."@,
                    ),
                )
            } else if elapsed_ns == 0 {
                Err(
                    plain_failure(
                        WorkloadFailureKind::MeasurementFailed,
                        "The monotonic workload duration was zero."@,
                    ),
                )
            } else {
                Ok(
                    InvocationView {
                        duration_ns: elapsed_ns as u64,
                        stdout: lossy_text(stdout.bytes),
                        stderr: lossy_text(stderr.bytes),
                    },
                )
            },
        }
    }
}

/// What an invocation came to; a stream is missing where its reader was lost.
pub open spec fn invocation_outcome(
    stdout: Option<CapturedStream>,
    stderr: Option<CapturedStream>,
    completion: Completion,
    elapsed_ns: u128,
) -> Result<InvocationView, WorkloadFailureView> {
    if stdout is None {
        Err(
            plain_failure(
                WorkloadFailureKind::CaptureFailed,
                "Workload "@ + stream_label(StreamKind::Stdout) + " capture thread terminated."@,
            ),
        )
    } else if stderr is None {
        Err(
            plain_failure(
                WorkloadFailureKind::CaptureFailed,
                "Workload "@ + stream_label(StreamKind::Stderr) + " capture thread terminated."@,
            ),
        )
    } else {
        completed(stdout->0@, stderr->0@, completion, elapsed_ns)
    }
}

fn lost_capture(stream: StreamKind) -> (failure: WorkloadFailure)
    ensures
        failure@ == plain_failure(
            WorkloadFailureKind::CaptureFailed,
            "Workload "@ + stream_label(stream) + " capture thread terminated."@,
        ),
{
    WorkloadFailure::new(
        WorkloadFailureKind::CaptureFailed,
        text3("Workload ", stream.label(), " capture thread terminated."),
    )
}

/// Decides what an invocation came to.
pub fn finish_invocation(
    stdout: Option<CapturedStream>,
    stderr: Option<CapturedStream>,
    completion: Completion,
    elapsed_ns: u128,
) -> (result: Result<InvocationResult, WorkloadFailure>)
    ensures
        match result {
            Ok(found) => invocation_outcome(stdout, stderr, completion, elapsed_ns) == Ok::<
                InvocationView,
                WorkloadFailureView,
            >(found@),
            Err(failure) => invocation_outcome(stdout, stderr, completion, elapsed_ns) == Err::<
                InvocationView,
                WorkloadFailureView,
            >(failure@),
        },
{
    let stdout = match stdout {
        Some(capture) => capture,
        None => return Err(lost_capture(StreamKind::Stdout)),
    };
    let stderr = match stderr {
        Some(capture) => capture,
        None => return Err(lost_capture(StreamKind::Stderr)),
    };
    if let Some(error) = &stdout.error {
        return Err(
            WorkloadFailure::with_captures(
                WorkloadFailureKind::CaptureFailed,
                text2("Workload output could not be captured: ", error.as_str()),
                &stdout,
                &stderr,
            ),
        );
    }
    if let Some(error) = &stderr.error {
        return Err(
            WorkloadFailure::with_captures(
                WorkloadFailureKind::CaptureFailed,
                text2("Workload output could not be captured: ", error.as_str()),
                &stdout,
                &stderr,
            ),
        );
    }
    if stdout.truncated || stderr.truncated {
        let stream: &str = if stdout.truncated {
            "stdout"
        } else {
            "stderr"
        };
        return Err(
            WorkloadFailure::with_captures(
                WorkloadFailureKind::OutputLimit,
                text3(
                    "Workload ",
                    stream,
                    " exceeded the 1 MiB limit; the artifact was rejected.",
                ),
                &stdout,
                &stderr,
            ),
        );
    }
    match completion {
        Completion::Terminated { kind, message, termination_error } => {
            let full = match termination_error {
                Some(error) => text3(
                    message.as_str(),
                    " Process-group cleanup reported: ",
                    error.as_str(),
                ),
                None => message,
            };
            Err(WorkloadFailure::with_captures(kind, full, &stdout, &stderr))
        },
        Completion::Exited { success, status } => {
            if !success {
                return Err(
                    WorkloadFailure::with_captures(
                        WorkloadFailureKind::NonzeroExit,
                        text3(
                            "Workload exited with ",
                            status.as_str(),
                            "; exit status zero is required.",
                        ),
                        &stdout,
                        &stderr,
                    ),
                );
            }
            if elapsed_ns > u64::MAX as u128 {
                return Err(
                    WorkloadFailure::new(
                        WorkloadFailureKind::MeasurementFailed,
                        "Workload duration exceeded the measurement-v1 integer range.".to_owned(),
                    ),
                );
            }
            if elapsed_ns == 0 {
                return Err(
                    WorkloadFailure::new(
                        WorkloadFailureKind::MeasurementFailed,
                        "The monotonic workload duration was zero.".to_owned(),
                    ),
                );
            }
            Ok(
                InvocationResult {
                    duration_ns: elapsed_ns as u64,
                    stdout: stdout.text(),
                    stderr: stderr.text(),
                },
            )
        },
    }
}

/// An invocation only succeeds where the workload exited with status zero, neither stream was cut
/// or lost, and it took some time.
pub proof fn law_successful_invocations_are_complete(
    stdout: Option<CapturedStream>,
    stderr: Option<CapturedStream>,
    completion: Completion,
    elapsed_ns: u128,
)
    requires
        invocation_outcome(stdout, stderr, completion, elapsed_ns) is Ok,
    ensures
        completion is Exited,
        completion->success,
        stdout is Some && !stdout->0.truncated && stdout->0.error is None,
        stderr is Some && !stderr->0.truncated && stderr->0.error is None,
        invocation_outcome(stdout, stderr, completion, elapsed_ns)->Ok_0.duration_ns == elapsed_ns,
        elapsed_ns > 0,
{
}

/// A screening in progress: how often the workload ran, and the recorded durations.
#[derive(Debug)]
pub struct ScreeningRun {
    pub runs: usize,
    pub samples: Vec<u64>,
}

/// The recorded durations after `durations`, all of the runs so far in order.
pub open spec fn recorded_samples(durations: Seq<u64>) -> Seq<u64> {
    if durations.len() <= WARMUP_COUNT {
        Seq::empty()
    } else {
        durations.skip(WARMUP_COUNT as int)
    }
}

impl ScreeningRun {
    /// Whether this is the screening after `durations`.
    pub open spec fn follows(self, durations: Seq<u64>) -> bool {
        self.runs == durations.len() && self.samples@ == recorded_samples(durations)
    }

    pub fn new() -> (run: ScreeningRun)
        ensures
            run.follows(Seq::empty()),
    {
        ScreeningRun { runs: 0, samples: Vec::new() }
    }

    /// Whether every warmup and every sample was taken.
    pub fn is_complete(&self) -> (complete: bool)
        ensures
            complete == (self.samples@.len() >= SCREENING_SAMPLE_COUNT),
    {
        self.samples.len() >= SCREENING_SAMPLE_COUNT
    }

    /// Takes the duration of one run: the first runs are warmups, and are not recorded.
    pub fn take(&mut self, duration_ns: u64)
        requires
            old(self).samples@.len() < SCREENING_SAMPLE_COUNT,
            old(self).runs < usize::MAX,
        ensures
            final(self).runs == old(self).runs + 1,
            final(self).samples@ == if old(self).runs < WARMUP_COUNT {
                old(self).samples@
            } else {
                old(self).samples@.push(duration_ns)
            },
            forall|durations: Seq<u64>|
                old(self).follows(durations) ==> #[trigger] final(self).follows(
                    durations.push(duration_ns),
                ),
    {
        let ghost before = *self;
        if self.runs >= WARMUP_COUNT {
            self.samples.push(duration_ns);
        }
        self.runs = self.runs + 1;
        proof {
            let after = *self;
            assert forall|durations: Seq<u64>| before.follows(durations) implies #[trigger]
                after.follows(durations.push(duration_ns)) by {
                if durations.len() >= WARMUP_COUNT {
                    assert(durations.push(duration_ns).skip(WARMUP_COUNT as int)
                        =~= recorded_samples(durations).push(duration_ns));
                }
            }
        }
    }
}

/// A complete screening took two warmups and recorded the seven durations after them.
pub proof fn law_screenings_record_seven_samples(run: ScreeningRun, durations: Seq<u64>)
    requires
        run.follows(durations),
        run.samples@.len() == SCREENING_SAMPLE_COUNT,
    ensures
        durations.len() == 9,
        run.samples@ == durations.subrange(2, 9),
{
    assert(durations.skip(2) =~= durations.subrange(2, durations.len() as int));
}

#[derive(Clone, Copy, Debug, PartialEq, Eq, Structural)]
pub enum ConfirmationStep {
    Baseline,
    Candidate,
    Measurement,
}

/// A failed confirmation, and the step at which it failed.
#[derive(Debug)]
pub struct ConfirmationFailure {
    pub step: ConfirmationStep,
    pub failure: WorkloadFailure,
}

/// The step that follows `done` runs: the order within a pair alternates from pair to pair.
pub open spec fn confirmation_step(done: int) -> ConfirmationStep {
    if done >= 2 * CONFIRMATION_PAIR_COUNT {
        ConfirmationStep::Measurement
    } else if (done / 2) % 2 == done % 2 {
        ConfirmationStep::Baseline
    } else {
        ConfirmationStep::Candidate
    }
}

/// A confirmation in progress.
#[derive(Debug)]
pub struct ConfirmationRun {
    pub done: usize,
    pub baseline: Vec<u64>,
    pub candidate: Vec<u64>,
}

/// The place in time of the baseline's run of a pair.
pub open spec fn baseline_turn(pair: int) -> int {
    2 * pair + pair % 2
}

/// The place in time of the candidate's run of a pair.
pub open spec fn candidate_turn(pair: int) -> int {
    2 * pair + 1 - pair % 2
}

impl ConfirmationRun {
    /// Whether the numbers of runs fit together.
    pub open spec fn well_formed(self) -> bool {
        let pairs = self.done as int / 2;
        &&& self.done <= 2 * CONFIRMATION_PAIR_COUNT
        &&& self.baseline@.len() == pairs + if self.done % 2 == 1 && pairs % 2 == 0 {
            1int
        } else {
            0int
        }
        &&& self.candidate@.len() == pairs + if self.done % 2 == 1 && pairs % 2 == 1 {
            1int
        } else {
            0int
        }
    }

    /// Whether this is the confirmation after `durations`, all of the runs so far in order.
    pub open spec fn follows(self, durations: Seq<u64>) -> bool {
        &&& self.well_formed()
        &&& self.done == durations.len()
        &&& forall|i: int|
            0 <= i < self.baseline@.len() ==> #[trigger] self.baseline@[i]
                == durations[baseline_turn(i)]
        &&& forall|i: int|
            0 <= i < self.candidate@.len() ==> #[trigger] self.candidate@[i]
                == durations[candidate_turn(i)]
    }

    pub fn new() -> (run: ConfirmationRun)
        ensures
            run.follows(Seq::empty()),
    {
        ConfirmationRun { done: 0, baseline: Vec::new(), candidate: Vec::new() }
    }

    /// What to do next: run one of the two executables, or measure.
    pub fn step(&self) -> (step: ConfirmationStep)
        ensures
            step == confirmation_step(self.done as int),
    {
        if self.done >= 2 * CONFIRMATION_PAIR_COUNT {
            ConfirmationStep::Measurement
        } else if (self.done / 2) % 2 == self.done % 2 {
            ConfirmationStep::Baseline
        } else {
            ConfirmationStep::Candidate
        }
    }

    /// Takes the duration of the run that was due.
    pub fn take(&mut self, duration_ns: u64)
        requires
            old(self).well_formed(),
            old(self).done < 2 * CONFIRMATION_PAIR_COUNT,
        ensures
            final(self).well_formed(),
            final(self).done == old(self).done + 1,
            confirmation_step(old(self).done as int) == ConfirmationStep::Baseline
                ==> final(self).baseline@ == old(self).baseline@.push(duration_ns)
                && final(self).candidate@ == old(self).candidate@,
            confirmation_step(old(self).done as int) == ConfirmationStep::Candidate
                ==> final(self).candidate@ == old(self).candidate@.push(duration_ns)
                && final(self).baseline@ == old(self).baseline@,
            forall|durations: Seq<u64>|
                old(self).follows(durations) ==> #[trigger] final(self).follows(
                    durations.push(duration_ns),
                ),
    {
        let ghost before = *self;
        let step: ConfirmationStep = self.step();
        if step == ConfirmationStep::Baseline {
            self.baseline.push(duration_ns);
        } else {
            self.candidate.push(duration_ns);
        }
        self.done = self.done + 1;
        proof {
            let after = *self;
            assert forall|durations: Seq<u64>| before.follows(durations) implies #[trigger]
                after.follows(durations.push(duration_ns)) by {
                let longer = durations.push(duration_ns);
                assert forall|i: int| 0 <= i < after.baseline@.len() implies #[trigger]
                    after.baseline@[i] == longer[baseline_turn(i)] by {
                    if i < before.baseline@.len() {
                        assert(after.baseline@[i] == before.baseline@[i]);
                        assert(baseline_turn(i) < durations.len());
                    }
                }
                assert forall|i: int| 0 <= i < after.candidate@.len() implies #[trigger]
                    after.candidate@[i] == longer[candidate_turn(i)] by {
                    if i < before.candidate@.len() {
                        assert(after.candidate@[i] == before.candidate@[i]);
                        assert(candidate_turn(i) < durations.len());
                    }
                }
            }
        }
    }
}

/// A complete confirmation holds twenty pairs, and the two runs of each pair follow one another
/// directly, the baseline first in every other pair.
pub proof fn law_confirmations_alternate(run: ConfirmationRun, durations: Seq<u64>)
    requires
        run.follows(durations),
        confirmation_step(run.done as int) == ConfirmationStep::Measurement,
    ensures
        run.baseline@.len() == CONFIRMATION_PAIR_COUNT,
        run.candidate@.len() == CONFIRMATION_PAIR_COUNT,
        durations.len() == 2 * CONFIRMATION_PAIR_COUNT,
        forall|pair: int|
            0 <= pair < CONFIRMATION_PAIR_COUNT ==> #[trigger] run.baseline@[pair]
                == durations[baseline_turn(pair)] && run.candidate@[pair]
                == durations[candidate_turn(pair)],
{
}

/// A capture holds what was read, in order, up to one mebibyte; what goes beyond it is cut, and the
/// reader says so.
pub proof fn law_captures_keep_what_was_read(
    capture: CaptureView,
    stream: StreamKind,
    found: Vec<u8>,
)
    requires
        capture.bytes.len() <= 1_048_576,
    ensures
        ({
            let (after, event) = captured(capture, stream, StreamRead::Chunk(found));
            let whole = capture.bytes + found@;
            &&& after.error == capture.error
            &&& whole.len() <= 1_048_576 ==> after.bytes == whole && after.truncated
                == capture.truncated && event is None
            &&& whole.len() > 1_048_576 ==> after.bytes == whole.take(1_048_576) && after.truncated
                && event == Some(ReaderEvent::Limit(stream))
        }),
        captured(capture, stream, StreamRead::Ended) == (
            capture,
            Some(ReaderEvent::Finished(stream)),
        ),
{
    let whole = capture.bytes + found@;
    if whole.len() > 1_048_576 {
        assert(whole.take(1_048_576) =~= capture.bytes + found@.take(
            1_048_576 - capture.bytes.len(),
        ));
    }
}

proof fn lemma_letter_place(text: Seq<char>, letter: char, from: int)
    requires
        0 <= from <= text.len(),
    ensures
        match letter_place(text, letter, from) {
            Some(place) => from <= place < text.len() && text[place] == letter && forall|i: int|
                from <= i < place ==> text[i] != letter,
            None => forall|i: int| from <= i < text.len() ==> text[i] != letter,
        },
    decreases text.len() - from,
{
    if from < text.len() && text[from] != letter {
        lemma_letter_place(text, letter, from + 1);
    }
}

/// Every line that has a name before an equals sign is replaced, and every other line stays.
pub proof fn law_assignments_are_redacted(text: Seq<char>, index: int)
    requires
        0 <= index < lines_of(text).len(),
    ensures
        ({
            let line = lines_of(text)[index];
            let shown = lines_of(text).map_values(|line: Seq<char>| redacted_line(line));
            &&& redacted(text) == joined_texts(shown, "\n"@)
            &&& shown.len() == lines_of(text).len()
            &&& line.len() > 0 && line[0] != '=' && line.contains('=') ==> shown[index]
                == "<redacted environment entry>"@
            &&& !(line.len() > 0 && line[0] != '=' && line.contains('=')) ==> shown[index] == line
        }),
{
    let line = lines_of(text)[index];
    lemma_letter_place(line, '=', 0);
    if line.contains('=') {
        let place = choose|i: int| 0 <= i < line.len() && line[i] == '=';
        assert(line[place] == '=');
    }
}

/// What a failed workload printed is shown with every assignment redacted, its output before its
/// errors.
pub proof fn law_failures_show_both_streams(
    kind: WorkloadFailureKind,
    message: Seq<char>,
    stdout: CaptureView,
    stderr: CaptureView,
)
    ensures
        ({
            let failure = failure_with_captures(kind, message, stdout, stderr);
            &&& failure.kind == kind
            &&& failure.message == message
            &&& failure.bounded_diagnostics == "stdout:\n"@ + redacted(lossy_text(stdout.bytes))
                + "\nstderr:\n"@ + redacted(lossy_text(stderr.bytes))
            &&& failure.diagnostics_truncated <==> stdout.truncated || stderr.truncated
        }),
{
}

/// A workload runs the first word of its command line with the words after it, in the canonical
/// workspace, under its timeout; only an empty command line or a lost workspace is refused.
pub proof fn law_workloads_run_their_command_line(
    argv: Seq<Seq<u8>>,
    workspace_root: Seq<u8>,
    canonical: Result<Vec<u8>, String>,
    timeout_ns: u128,
)
    ensures
        ({
            let outcome = workload_outcome(argv, workspace_root, canonical, timeout_ns);
            &&& outcome is Ok <==> argv.len() > 0 && canonical is Ok
            &&& outcome is Ok ==> seq![outcome->Ok_0.executable] + outcome->Ok_0.arguments == argv
                && outcome->Ok_0.workspace_root == canonical->Ok_0@ && outcome->Ok_0.timeout_ns
                == timeout_ns
            &&& outcome is Err ==> outcome->Err_0.kind == WorkloadFailureKind::SpawnFailed
        }),
{
}

/// A candidate can be run exactly where it is a regular file, and then by its canonical path.
pub proof fn law_candidates_are_regular_files(candidate: Seq<u8>, probe: CandidateFile)
    ensures
        ({
            let outcome = candidate_outcome(candidate, probe);
            &&& outcome is Ok <==> probe.canonical is Ok && probe.regular
            &&& outcome is Ok ==> outcome->Ok_0 == probe.canonical->Ok_0@
            &&& outcome is Err ==> outcome->Err_0.kind == WorkloadFailureKind::InvalidCandidate
        }),
{
}

/// Whether an event says that a stream was read to its end.
pub open spec fn ends_stream(event: ReaderEvent, stream: StreamKind) -> bool {
    event == ReaderEvent::Finished(stream)
}

/// Whether the events say that a stream was read to its end.
pub open spec fn stream_ended(events: Seq<ReaderEvent>, count: int, stream: StreamKind) -> bool {
    exists|i: int| 0 <= i < count && #[trigger] ends_stream(events[i], stream)
}

proof fn lemma_events_are_told(monitor: Monitor, events: Seq<ReaderEvent>, count: int)
    requires
        0 <= count <= events.len(),
        forall|i: int| 0 <= i < count ==> (#[trigger] events[i]) is Finished,
    ensures
        after_events(monitor, events, count) is Ok,
        after_events(monitor, events, count)->Ok_0.exited == monitor.exited,
        after_events(monitor, events, count)->Ok_0.stdout_finished <==> monitor.stdout_finished
            || stream_ended(events, count, StreamKind::Stdout),
        after_events(monitor, events, count)->Ok_0.stderr_finished <==> monitor.stderr_finished
            || stream_ended(events, count, StreamKind::Stderr),
    decreases count,
{
    if count > 0 {
        lemma_events_are_told(monitor, events, count - 1);
        let last = events[count - 1];
        assert(last is Finished);
        assert forall|stream: StreamKind|
            #![trigger stream_ended(events, count, stream)]
            stream_ended(events, count, stream) <==> (stream_ended(events, count - 1, stream)
                || ends_stream(last, stream)) by {
            if stream_ended(events, count, stream) {
                let i = choose|i: int| 0 <= i < count && #[trigger] ends_stream(events[i], stream);
                if i < count - 1 {
                    assert(ends_stream(events[i], stream));
                }
            }
            if stream_ended(events, count - 1, stream) {
                let i = choose|i: int|
                    0 <= i < count - 1 && #[trigger] ends_stream(events[i], stream);
                assert(ends_stream(events[i], stream));
            }
            if ends_stream(last, stream) {
                assert(ends_stream(events[count - 1], stream));
            }
        }
    }
}

/// A watched child that gave no bad news is taken to have ended exactly where it exited, both of
/// its streams ended and nothing of its group is left; otherwise its timeout decides.
pub proof fn law_watches_follow_what_is_seen(
    monitor: Monitor,
    seen: Observation,
    timeout_ns: u128,
    timeout_text: Seq<char>,
)
    requires
        forall|i: int| 0 <= i < seen.events@.len() ==> (#[trigger] seen.events@[i]) is Finished,
        !seen.interrupted,
        monitor.exited || seen.child is Running || seen.child is Succeeded,
        seen.group is Ok,
    ensures
        ({
            let (after, watch) = watched(monitor, seen, timeout_ns, timeout_text);
            let count = seen.events@.len() as int;
            let exited = monitor.exited || seen.child is Succeeded;
            let quiet = (monitor.stdout_finished || stream_ended(
                seen.events@,
                count,
                StreamKind::Stdout,
            )) && (monitor.stderr_finished || stream_ended(
                seen.events@,
                count,
                StreamKind::Stderr,
            ));
            let ended = exited && quiet && !seen.group->Ok_0;
            &&& watch is Exited <==> ended
            &&& watch is Continue <==> !ended && seen.elapsed_ns < timeout_ns
            &&& watch is Terminate ==> watch->Terminate_0 == WorkloadFailureKind::Timeout
            &&& watch is Continue ==> after.exited == exited && (after.stdout_finished
                && after.stderr_finished <==> quiet)
        }),
{
    lemma_events_are_told(monitor, seen.events@, seen.events@.len() as int);
}

proof fn lemma_bad_event(monitor: Monitor, events: Seq<ReaderEvent>, count: int, bad: int)
    requires
        0 <= bad < count <= events.len(),
        forall|i: int| 0 <= i < bad ==> (#[trigger] events[i]) is Finished,
        !(events[bad] is Finished),
    ensures
        after_events(monitor, events, count) is Err,
        after_events(monitor, events, count)->Err_0.0 == if events[bad] is Limit {
            WorkloadFailureKind::OutputLimit
        } else {
            WorkloadFailureKind::CaptureFailed
        },
    decreases count,
{
    if bad < count - 1 {
        lemma_bad_event(monitor, events, count - 1, bad);
    } else {
        lemma_events_are_told(monitor, events, count - 1);
    }
}

/// The first bad news decides why a watched child is terminated: a stream beyond its bound or lost,
/// then an interruption, then a status other than zero or unknown, then a group out of sight.
pub proof fn law_bad_news_terminates(
    monitor: Monitor,
    seen: Observation,
    timeout_ns: u128,
    timeout_text: Seq<char>,
    bad: int,
)
    requires
        0 <= bad <= seen.events@.len(),
        forall|i: int| 0 <= i < bad ==> (#[trigger] seen.events@[i]) is Finished,
        bad < seen.events@.len() ==> !(seen.events@[bad] is Finished),
    ensures
        ({
            let watch = watched(monitor, seen, timeout_ns, timeout_text).1;
            let heard = bad == seen.events@.len();
            let alive = monitor.exited || seen.child is Running || seen.child is Succeeded;
            &&& !heard ==> watch is Terminate && watch->Terminate_0 == if seen.events@[bad] is Limit {
                WorkloadFailureKind::OutputLimit
            } else {
                WorkloadFailureKind::CaptureFailed
            }
            &&& heard && seen.interrupted ==> watch is Terminate && watch->Terminate_0
                == WorkloadFailureKind::Interrupted
            &&& heard && !seen.interrupted && !alive ==> watch is Terminate && watch->Terminate_0
                == if seen.child is Ended {
                WorkloadFailureKind::NonzeroExit
            } else {
                WorkloadFailureKind::CaptureFailed
            }
            &&& watch is Terminate ==> watched(monitor, seen, timeout_ns, timeout_text).0 == monitor
        }),
{
    if bad < seen.events@.len() {
        lemma_bad_event(monitor, seen.events@, seen.events@.len() as int, bad);
    } else {
        lemma_events_are_told(monitor, seen.events@, seen.events@.len() as int);
    }
}

/// A group that was asked to end is looked at for a quarter of a second, collecting its child in
/// between; it is killed if it outlives that, and its child is then reaped within two seconds.
pub proof fn law_terminations_ask_then_kill_then_reap(
    elapsed: u128,
    exists_still: bool,
    collected: bool,
)
    ensures
        terminating(Termination::Asked, TerminationEvent::Signalled(Ok(()))) == (
            Termination::Grace,
            TerminationActionView::Look,
        ),
        terminating(Termination::Grace, TerminationEvent::Looked(elapsed, Ok(exists_still))) == if elapsed
            < 250_000_000 && exists_still {
            (Termination::Collecting, TerminationActionView::CollectThenSleep)
        } else {
            (Termination::Overdue, TerminationActionView::Look)
        },
        terminating(Termination::Collecting, TerminationEvent::Collected(elapsed, Ok(collected))) == (
            Termination::Grace,
            TerminationActionView::Look,
        ),
        terminating(Termination::Overdue, TerminationEvent::Looked(elapsed, Ok(exists_still))) == if exists_still {
            (Termination::Killed, TerminationActionView::Kill)
        } else {
            (Termination::Reaping, TerminationActionView::Reap)
        },
        terminating(Termination::Killed, TerminationEvent::Signalled(Ok(()))) == (
            Termination::Reaping,
            TerminationActionView::Reap,
        ),
        ({
            let (next, action) = terminating(
                Termination::Reaping,
                TerminationEvent::Collected(elapsed, Ok(collected)),
            );
            &&& collected ==> next == Termination::Over && action == TerminationActionView::Finish(
                Ok(()),
            )
            &&& !collected && elapsed < 2_000_000_000 ==> next == Termination::Reaping && action
                == TerminationActionView::SleepThenReap
            &&& !collected && elapsed >= 2_000_000_000 ==> next == Termination::Over && action
                is Finish && action->Finish_0 is Err
        }),
{
}

/// An invocation succeeds exactly where both streams are whole and the workload exited with status
/// zero after some time; it then took that time and printed what was read.
pub proof fn law_invocations_succeed_exactly(
    stdout: Option<CapturedStream>,
    stderr: Option<CapturedStream>,
    completion: Completion,
    elapsed_ns: u128,
)
    ensures
        ({
            let outcome = invocation_outcome(stdout, stderr, completion, elapsed_ns);
            let whole = stdout is Some && stderr is Some && stdout->0.error is None
                && stderr->0.error is None && !stdout->0.truncated && !stderr->0.truncated;
            &&& outcome is Ok <==> whole && completion is Exited && completion->success && 0
                < elapsed_ns <= u64::MAX
            &&& outcome is Ok ==> outcome->Ok_0.duration_ns == elapsed_ns && outcome->Ok_0.stdout
                == lossy_text(stdout->0.bytes@) && outcome->Ok_0.stderr == lossy_text(
                stderr->0.bytes@,
            )
            &&& whole && completion is Terminated ==> outcome->Err_0.kind == completion->kind
            &&& whole && completion is Exited && !completion->success ==> outcome->Err_0.kind
                == WorkloadFailureKind::NonzeroExit
            &&& whole && completion is Exited && completion->success && outcome is Err
                ==> outcome->Err_0.kind == WorkloadFailureKind::MeasurementFailed
            &&& stdout is None || stderr is None || stdout->0.error is Some || stderr->0.error
                is Some ==> outcome->Err_0.kind == WorkloadFailureKind::CaptureFailed
            &&& !whole && stdout is Some && stderr is Some && stdout->0.error is None
                && stderr->0.error is None ==> outcome->Err_0.kind
                == WorkloadFailureKind::OutputLimit
        }),
{
}

/// The runs of a confirmation come in twenty pairs: the baseline goes first in the even ones and
/// the candidate in the odd ones, and every duration is kept with its pair.
pub proof fn law_confirmation_runs_are_paired(run: ConfirmationRun, durations: Seq<u64>, pair: int)
    requires
        run.follows(durations),
        run.done == 40,
        0 <= pair < 20,
    ensures
        durations.len() == 40,
        run.baseline@.len() == 20,
        run.candidate@.len() == 20,
        pair % 2 == 0 ==> run.baseline@[pair] == durations[2 * pair] && run.candidate@[pair]
            == durations[2 * pair + 1],
        pair % 2 == 1 ==> run.candidate@[pair] == durations[2 * pair] && run.baseline@[pair]
            == durations[2 * pair + 1],
        confirmation_step(2 * pair) == if pair % 2 == 0 {
            ConfirmationStep::Baseline
        } else {
            ConfirmationStep::Candidate
        },
        confirmation_step(2 * pair + 1) == if pair % 2 == 0 {
            ConfirmationStep::Candidate
        } else {
            ConfirmationStep::Baseline
        },
        confirmation_step(40) == ConfirmationStep::Measurement,
{
    assert(run.baseline@[pair] == durations[baseline_turn(pair)]);
    assert(run.candidate@[pair] == durations[candidate_turn(pair)]);
}

} // verus!
