//! Promotion of the confirmed executable.

use vstd::prelude::*;
use vstd::string::*;
use vstd::utf8::*;

use crate::hash::{sha256_hex, sha256_text};
use crate::paths::{join, join_path, lies_within, parts, same_path, starts_with};
use crate::strategy::Strategy;
use crate::text::{lossy, lossy_text, same_text, text2, text3, text4};

verus! {

#[derive(Clone, Copy, Debug, PartialEq, Eq, Structural)]
pub enum PromotionErrorKind {
    Interrupted,
    InvalidSource,
    ChecksumMismatch,
    Filesystem,
}

/// A failed promotion.
#[derive(Debug)]
pub struct PromotionError {
    pub kind: PromotionErrorKind,
    pub message: String,
}

/// A failed promotion, as a sequence.
#[verifier::ext_equal]
pub struct PromotionErrorView {
    pub kind: PromotionErrorKind,
    pub message: Seq<char>,
}

impl View for PromotionError {
    type V = PromotionErrorView;

    open spec fn view(&self) -> PromotionErrorView {
        PromotionErrorView { kind: self.kind, message: self.message@ }
    }
}

/// The error of an interrupted promotion.
pub open spec fn interruption() -> PromotionErrorView {
    PromotionErrorView {
        kind: PromotionErrorKind::Interrupted,
        message: "Artifact promotion was interrupted; no latest pointer was changed."@,
    }
}

/// An error of the source.
pub open spec fn invalid(message: Seq<char>) -> PromotionErrorView {
    PromotionErrorView { kind: PromotionErrorKind::InvalidSource, message }
}

/// An error of a checksum.
pub open spec fn mismatch(message: Seq<char>) -> PromotionErrorView {
    PromotionErrorView { kind: PromotionErrorKind::ChecksumMismatch, message }
}

/// An error of the file system.
pub open spec fn unwritten(message: Seq<char>) -> PromotionErrorView {
    PromotionErrorView { kind: PromotionErrorKind::Filesystem, message }
}

pub fn interrupted_error() -> (error: PromotionError)
    ensures
        error@ == interruption(),
{
    PromotionError {
        kind: PromotionErrorKind::Interrupted,
        message: "Artifact promotion was interrupted; no latest pointer was changed.".to_owned(),
    }
}

pub fn invalid_source(message: String) -> (error: PromotionError)
    ensures
        error@ == invalid(message@),
{
    PromotionError { kind: PromotionErrorKind::InvalidSource, message }
}

pub fn checksum_error(message: String) -> (error: PromotionError)
    ensures
        error@ == mismatch(message@),
{
    PromotionError { kind: PromotionErrorKind::ChecksumMismatch, message }
}

pub fn filesystem_error(message: String) -> (error: PromotionError)
    ensures
        error@ == unwritten(message@),
{
    PromotionError { kind: PromotionErrorKind::Filesystem, message }
}

/// What is persisted of a promotion.
#[derive(Debug)]
pub struct PromotionRecord {
    pub source_strategy: Strategy,
    pub source_path: Vec<u8>,
    pub source_sha256: String,
    pub promoted_path: Vec<u8>,
    pub promoted_sha256: String,
    pub size_bytes: u64,
    pub permissions_mode: u32,
}

/// What reading an open artifact for its digest gave.
#[derive(Debug)]
pub enum HashRead {
    NotCloned(String),
    NotRewound(String),
    NotRead(String),
    Contents(Vec<u8>),
}

/// The digest of an open artifact, or why there is none.
pub open spec fn open_digest(read: HashRead) -> Result<Seq<char>, PromotionErrorView> {
    match read {
        HashRead::NotCloned(error) => Err(
            mismatch("Could not clone artifact for hashing: "@ + error@),
        ),
        HashRead::NotRewound(error) => Err(
            mismatch("Could not rewind artifact for hashing: "@ + error@),
        ),
        HashRead::NotRead(error) => Err(mismatch("Could not hash artifact: "@ + error@)),
        HashRead::Contents(bytes) => Ok(sha256_text(bytes@)),
    }
}

/// Digests an open artifact.
pub fn sha256_open_file(read: &HashRead) -> (digest: Result<String, PromotionError>)
    ensures
        match digest {
            Ok(text) => open_digest(*read) == Ok::<Seq<char>, PromotionErrorView>(text@),
            Err(error) => open_digest(*read) == Err::<Seq<char>, PromotionErrorView>(error@),
        },
{
    match read {
        HashRead::NotCloned(error) => Err(
            checksum_error(text2("Could not clone artifact for hashing: ", error.as_str())),
        ),
        HashRead::NotRewound(error) => Err(
            checksum_error(text2("Could not rewind artifact for hashing: ", error.as_str())),
        ),
        HashRead::NotRead(error) => Err(
            checksum_error(text2("Could not hash artifact: ", error.as_str())),
        ),
        HashRead::Contents(bytes) => Ok(sha256_hex(bytes.as_slice())),
    }
}

/// What the file system says of an open file.
#[derive(Clone, Copy, Debug, PartialEq, Eq, Structural)]
pub struct ArtifactMetadata {
    pub regular: bool,
    pub size_bytes: u64,
    pub mode: u32,
    pub device: u64,
    pub inode: u64,
}

/// The identity of an artifact that is held open.
#[derive(Debug)]
pub struct AnchoredArtifact {
    pub source_path: Vec<u8>,
    pub expected_sha256: String,
    pub size_bytes: u64,
    pub permissions_mode: u32,
    pub device: u64,
    pub inode: u64,
}

/// The identity of an artifact, as sequences.
pub struct ArtifactView {
    pub source_path: Seq<u8>,
    pub expected_sha256: Seq<char>,
    pub size_bytes: u64,
    pub permissions_mode: u32,
    pub device: u64,
    pub inode: u64,
}

impl View for AnchoredArtifact {
    type V = ArtifactView;

    open spec fn view(&self) -> ArtifactView {
        ArtifactView {
            source_path: self.source_path@,
            expected_sha256: self.expected_sha256@,
            size_bytes: self.size_bytes,
            permissions_mode: self.permissions_mode,
            device: self.device,
            inode: self.inode,
        }
    }
}

/// What the file system says while an artifact is anchored.
#[derive(Debug)]
pub struct ArtifactFacts {
    pub canonical_run: Result<Vec<u8>, String>,
    pub confirmation_root: Result<Vec<u8>, String>,
    pub canonical_source: Result<Vec<u8>, String>,
    pub opened: Result<(), String>,
    pub metadata: Result<ArtifactMetadata, String>,
    pub contents: HashRead,
}

/// The identity of an opened artifact, or why it is refused.
pub open spec fn opened_outcome(
    source_path: Seq<u8>,
    expected_sha256: Seq<char>,
    facts: ArtifactFacts,
) -> Result<ArtifactView, PromotionErrorView> {
    match facts.opened {
        Err(error) => Err(
            invalid(
                "Could not anchor confirmation executable "@ + lossy_text(source_path) + ": "@
                    + error@,
            ),
        ),
        Ok(_) => match facts.metadata {
            Err(error) => Err(
                invalid("Could not inspect confirmation executable: "@ + error@),
            ),
            Ok(metadata) => if !metadata.regular {
                Err(invalid("Confirmation executable is not a regular file."@))
            } else {
                match open_digest(facts.contents) {
                    Err(error) => Err(error),
                    Ok(digest) => if digest != expected_sha256 {
                        Err(
                            mismatch(
                                "Confirmation executable changed after its Cargo build."@,
                            ),
                        )
                    } else {
                        Ok(
                            ArtifactView {
                                source_path,
                                expected_sha256,
                                size_bytes: metadata.size_bytes,
                                permissions_mode: metadata.mode & 0o7777,
                                device: metadata.device,
                                inode: metadata.inode,
                            },
                        )
                    },
                }
            },
        },
    }
}

/// The identity of an artifact, or why it is refused.
pub open spec fn artifact_outcome(
    run_directory: Seq<u8>,
    source: Seq<u8>,
    expected_sha256: Seq<char>,
    facts: ArtifactFacts,
) -> Result<ArtifactView, PromotionErrorView> {
    match facts.canonical_run {
        Err(error) => Err(
            invalid("Could not verify the run directory before confirmation: "@ + error@),
        ),
        Ok(canonical_run) => if parts(canonical_run@) != parts(run_directory) {
            Err(
                invalid(
                    "Run directory path changed after creation; confirmation was aborted."@,
                ),
            )
        } else {
            match facts.confirmation_root {
                Err(error) => Err(
                    invalid("Confirmation target directory is unavailable: "@ + error@),
                ),
                Ok(root) => match facts.canonical_source {
                    Err(error) => Err(
                        invalid(
                            "Confirmation executable "@ + lossy_text(source)
                                + " is unavailable: "@ + error@,
                        ),
                    ),
                    Ok(path) => if !lies_within(root@, run_directory) || !lies_within(
                        path@,
                        root@,
                    ) {
                        Err(
                            invalid(
                                "Confirmation executable escaped its run-scoped target directory."@,
                            ),
                        )
                    } else {
                        opened_outcome(path@, expected_sha256, facts)
                    },
                },
            }
        },
    }
}

/// What the file system says of an artifact after it was measured.
#[derive(Debug)]
pub struct UnchangedFacts {
    pub canonical: Result<Vec<u8>, String>,
    pub metadata: Result<ArtifactMetadata, String>,
    /// The digest of what lies at the path, or why there is none.
    pub path_sha256: Result<String, String>,
    /// What the open file holds.
    pub contents: HashRead,
}

/// Why an artifact is not what it was.
pub open spec fn change(artifact: ArtifactView, facts: UnchangedFacts) -> Option<
    PromotionErrorView,
> {
    let changed = Some(
        mismatch("Confirmation artifact identity or contents changed during measurement."@),
    );
    match facts.canonical {
        Err(error) => Some(
            invalid("Confirmation executable disappeared during measurement: "@ + error@),
        ),
        Ok(path) => match facts.metadata {
            Err(error) => Some(
                invalid("Could not re-inspect confirmation executable: "@ + error@),
            ),
            Ok(metadata) => if parts(path@) != parts(artifact.source_path) || metadata.device
                != artifact.device || metadata.inode != artifact.inode || metadata.size_bytes
                != artifact.size_bytes {
                changed
            } else {
                match facts.path_sha256 {
                    Err(error) => Some(mismatch(error@)),
                    Ok(digest) => if digest@ != artifact.expected_sha256 {
                        changed
                    } else {
                        match open_digest(facts.contents) {
                            Err(error) => Some(error),
                            Ok(found) => if found != artifact.expected_sha256 {
                                changed
                            } else {
                                None
                            },
                        }
                    },
                }
            },
        },
    }
}

fn changed_artifact() -> (error: PromotionError)
    ensures
        error@ == mismatch(
            "Confirmation artifact identity or contents changed during measurement."@,
        ),
{
    checksum_error(
        "Confirmation artifact identity or contents changed during measurement.".to_owned(),
    )
}

impl AnchoredArtifact {
    fn opened(source_path: Vec<u8>, expected_sha256: &str, facts: ArtifactFacts) -> (artifact:
        Result<AnchoredArtifact, PromotionError>)
        ensures
            match artifact {
                Ok(found) => opened_outcome(source_path@, expected_sha256@, facts) == Ok::<
                    ArtifactView,
                    PromotionErrorView,
                >(found@),
                Err(error) => opened_outcome(source_path@, expected_sha256@, facts) == Err::<
                    ArtifactView,
                    PromotionErrorView,
                >(error@),
            },
    {
        if let Err(error) = facts.opened {
            return Err(
                invalid_source(
                    text4(
                        "Could not anchor confirmation executable ",
                        lossy(source_path.as_slice()).as_str(),
                        ": ",
                        error.as_str(),
                    ),
                ),
            );
        }
        let metadata: ArtifactMetadata = match facts.metadata {
            Ok(metadata) => metadata,
            Err(error) => return Err(
                invalid_source(
                    text2("Could not inspect confirmation executable: ", error.as_str()),
                ),
            ),
        };
        if !metadata.regular {
            return Err(
                invalid_source("Confirmation executable is not a regular file.".to_owned()),
            );
        }
        let digest = match sha256_open_file(&facts.contents) {
            Ok(digest) => digest,
            Err(error) => return Err(error),
        };
        if !same_text(digest.as_str(), expected_sha256) {
            return Err(
                checksum_error(
                    "Confirmation executable changed after its Cargo build.".to_owned(),
                ),
            );
        }
        Ok(
            AnchoredArtifact {
                source_path,
                expected_sha256: digest,
                size_bytes: metadata.size_bytes,
                permissions_mode: metadata.mode & 0o7777,
                device: metadata.device,
                inode: metadata.inode,
            },
        )
    }

    /// Anchors a confirmation executable that must still be what Cargo built.
    pub fn open(
        run_directory: &[u8],
        source: &[u8],
        expected_sha256: &str,
        facts: ArtifactFacts,
    ) -> (artifact: Result<AnchoredArtifact, PromotionError>)
        ensures
            match artifact {
                Ok(found) => artifact_outcome(
                    run_directory@,
                    source@,
                    expected_sha256@,
                    facts,
                ) == Ok::<ArtifactView, PromotionErrorView>(found@),
                Err(error) => artifact_outcome(
                    run_directory@,
                    source@,
                    expected_sha256@,
                    facts,
                ) == Err::<ArtifactView, PromotionErrorView>(error@),
            },
    {
        match &facts.canonical_run {
            Err(error) => return Err(
                invalid_source(
                    text2(
                        "Could not verify the run directory before confirmation: ",
                        error.as_str(),
                    ),
                ),
            ),
            Ok(canonical_run) => {
                if !same_path(canonical_run.as_slice(), run_directory) {
                    return Err(
                        invalid_source(
                            "Run directory path changed after creation; confirmation was aborted.".to_owned(),
                        ),
                    );
                }
            },
        }
        let root = match &facts.confirmation_root {
            Ok(path) => path.clone(),
            Err(error) => return Err(
                invalid_source(
                    text2("Confirmation target directory is unavailable: ", error.as_str()),
                ),
            ),
        };
        let source_path = match &facts.canonical_source {
            Ok(path) => path.clone(),
            Err(error) => return Err(
                invalid_source(
                    text4(
                        "Confirmation executable ",
                        lossy(source).as_str(),
                        " is unavailable: ",
                        error.as_str(),
                    ),
                ),
            ),
        };
        if !starts_with(root.as_slice(), run_directory) || !starts_with(
            source_path.as_slice(),
            root.as_slice(),
        ) {
            return Err(
                invalid_source(
                    "Confirmation executable escaped its run-scoped target directory.".to_owned(),
                ),
            );
        }
        AnchoredArtifact::opened(source_path, expected_sha256, facts)
    }

    /// Checks that an artifact is still what it was when it was anchored.
    pub fn verify_unchanged(&self, facts: &UnchangedFacts) -> (unchanged: Result<
        (),
        PromotionError,
    >)
        ensures
            match unchanged {
                Ok(_) => change(self@, *facts) is None,
                Err(error) => change(self@, *facts) == Some(error@),
            },
    {
        let path = match &facts.canonical {
            Ok(path) => path,
            Err(error) => return Err(
                invalid_source(
                    text2(
                        "Confirmation executable disappeared during measurement: ",
                        error.as_str(),
                    ),
                ),
            ),
        };
        let metadata: &ArtifactMetadata = match &facts.metadata {
            Ok(metadata) => metadata,
            Err(error) => return Err(
                invalid_source(
                    text2("Could not re-inspect confirmation executable: ", error.as_str()),
                ),
            ),
        };
        if !same_path(path.as_slice(), self.source_path.as_slice()) || metadata.device
            != self.device || metadata.inode != self.inode || metadata.size_bytes
            != self.size_bytes {
            return Err(changed_artifact());
        }
        let digest = match &facts.path_sha256 {
            Ok(digest) => digest,
            Err(error) => return Err(checksum_error(error.clone())),
        };
        if !same_text(digest.as_str(), self.expected_sha256.as_str()) {
            return Err(changed_artifact());
        }
        let found = match sha256_open_file(&facts.contents) {
            Ok(digest) => digest,
            Err(error) => return Err(error),
        };
        if !same_text(found.as_str(), self.expected_sha256.as_str()) {
            return Err(changed_artifact());
        }
        Ok(())
    }
}

/// An anchored artifact lies inside the confirmation directory of its run, and what it holds has
/// the expected digest.
pub proof fn law_anchored_artifacts_are_the_built_ones(
    run_directory: Seq<u8>,
    source: Seq<u8>,
    expected_sha256: Seq<char>,
    facts: ArtifactFacts,
)
    requires
        artifact_outcome(run_directory, source, expected_sha256, facts) is Ok,
    ensures
        ({
            let artifact = artifact_outcome(
                run_directory,
                source,
                expected_sha256,
                facts,
            )->Ok_0;
            &&& lies_within(artifact.source_path, facts.confirmation_root->Ok_0@)
            &&& lies_within(facts.confirmation_root->Ok_0@, run_directory)
            &&& artifact.expected_sha256 == expected_sha256
            &&& facts.contents matches HashRead::Contents(bytes)
            &&& sha256_text(bytes@) == expected_sha256
        }),
{
}

/// Where the copy of an artifact is.
#[derive(Clone, Copy, Debug, PartialEq, Eq, Structural)]
pub enum CopyStep {
    Opening,
    Checking,
    Reading,
    Writing,
    Securing,
    Syncing,
    Over,
}

/// What an operation of a copy came to.
#[derive(Debug)]
pub enum CopyEvent {
    /// The source was cloned and rewound; the message says what failed.
    Opened(Result<(), String>),
    Checked(bool),
    /// Whether more was read.
    Read(Result<bool, String>),
    Did(Result<(), String>),
}

/// The next operation of a copy.
#[derive(Debug)]
pub enum CopyAction {
    CheckInterrupt,
    Read,
    Write,
    /// Give the copy the permissions of the source.
    Secure,
    Sync,
    Finish(Result<(), PromotionError>),
}

/// The next operation of a copy, as sequences.
pub enum CopyActionView {
    CheckInterrupt,
    Read,
    Write,
    Secure,
    Sync,
    Finish(Result<(), PromotionErrorView>),
}

impl View for CopyAction {
    type V = CopyActionView;

    open spec fn view(&self) -> CopyActionView {
        match *self {
            CopyAction::CheckInterrupt => CopyActionView::CheckInterrupt,
            CopyAction::Read => CopyActionView::Read,
            CopyAction::Write => CopyActionView::Write,
            CopyAction::Secure => CopyActionView::Secure,
            CopyAction::Sync => CopyActionView::Sync,
            CopyAction::Finish(Ok(_)) => CopyActionView::Finish(Ok(())),
            CopyAction::Finish(Err(error)) => CopyActionView::Finish(Err(error@)),
        }
    }
}

/// Whether an event is one that a copy waits for.
pub open spec fn is_copy_outcome(step: CopyStep, event: CopyEvent) -> bool {
    match step {
        CopyStep::Opening => event is Opened,
        CopyStep::Checking => event is Checked,
        CopyStep::Reading => event is Read,
        CopyStep::Writing | CopyStep::Securing | CopyStep::Syncing => event is Did,
        CopyStep::Over => false,
    }
}

/// A copy after an event.
pub open spec fn copied(step: CopyStep, event: CopyEvent) -> (CopyStep, CopyActionView) {
    match event {
        CopyEvent::Opened(Err(message)) => (
            CopyStep::Over,
            CopyActionView::Finish(Err(unwritten(message@))),
        ),
        CopyEvent::Opened(Ok(_)) => (CopyStep::Checking, CopyActionView::CheckInterrupt),
        CopyEvent::Checked(interrupted) => if interrupted {
            (CopyStep::Over, CopyActionView::Finish(Err(interruption())))
        } else {
            (CopyStep::Reading, CopyActionView::Read)
        },
        CopyEvent::Read(Err(error)) => (
            CopyStep::Over,
            CopyActionView::Finish(Err(unwritten("Artifact copy failed: "@ + error@))),
        ),
        CopyEvent::Read(Ok(more)) => if more {
            (CopyStep::Writing, CopyActionView::Write)
        } else {
            (CopyStep::Securing, CopyActionView::Secure)
        },
        CopyEvent::Did(done) => match done {
            Ok(_) => if step == CopyStep::Writing {
                (CopyStep::Checking, CopyActionView::CheckInterrupt)
            } else if step == CopyStep::Securing {
                (CopyStep::Syncing, CopyActionView::Sync)
            } else {
                (CopyStep::Over, CopyActionView::Finish(Ok(())))
            },
            Err(error) => (
                CopyStep::Over,
                CopyActionView::Finish(
                    Err(
                        unwritten(
                            if step == CopyStep::Writing {
                                "Artifact copy failed: "@
                            } else if step == CopyStep::Securing {
                                "Could not preserve confirmed executable permissions: "@
                            } else {
                                "Could not sync promoted artifact: "@
                            } + error@,
                        ),
                    ),
                ),
            ),
        },
    }
}

/// Takes what the last operation of a copy came to, and says what is to be done next. The copy
/// starts out `Opening`, with the source to be cloned and rewound.
pub fn copy_and_sync(step: &mut CopyStep, event: CopyEvent) -> (action: CopyAction)
    requires
        is_copy_outcome(*old(step), event),
    ensures
        (*final(step), action@) == copied(*old(step), event),
{
    match event {
        CopyEvent::Opened(Err(message)) => {
            *step = CopyStep::Over;
            CopyAction::Finish(Err(filesystem_error(message)))
        },
        CopyEvent::Opened(Ok(_)) => {
            *step = CopyStep::Checking;
            CopyAction::CheckInterrupt
        },
        CopyEvent::Checked(interrupted) => {
            if interrupted {
                *step = CopyStep::Over;
                return CopyAction::Finish(Err(interrupted_error()));
            }
            *step = CopyStep::Reading;
            CopyAction::Read
        },
        CopyEvent::Read(Err(error)) => {
            *step = CopyStep::Over;
            CopyAction::Finish(
                Err(filesystem_error(text2("Artifact copy failed: ", error.as_str()))),
            )
        },
        CopyEvent::Read(Ok(more)) => {
            if more {
                *step = CopyStep::Writing;
                CopyAction::Write
            } else {
                *step = CopyStep::Securing;
                CopyAction::Secure
            }
        },
        CopyEvent::Did(done) => match done {
            Ok(_) => {
                if *step == CopyStep::Writing {
                    *step = CopyStep::Checking;
                    CopyAction::CheckInterrupt
                } else if *step == CopyStep::Securing {
                    *step = CopyStep::Syncing;
                    CopyAction::Sync
                } else {
                    *step = CopyStep::Over;
                    CopyAction::Finish(Ok(()))
                }
            },
            Err(error) => {
                let prefix: &str = if *step == CopyStep::Writing {
                    "Artifact copy failed: "
                } else if *step == CopyStep::Securing {
                    "Could not preserve confirmed executable permissions: "
                } else {
                    "Could not sync promoted artifact: "
                };
                *step = CopyStep::Over;
                CopyAction::Finish(Err(filesystem_error(text2(prefix, error.as_str()))))
            },
        },
    }
}

/// Where a promotion is.
#[derive(Clone, Copy, Debug, PartialEq, Eq, Structural)]
pub enum PromoteStep {
    Beginning,
    Verifying,
    CreatingDirectory,
    CreatingTemporary,
    Copying,
    Hashing,
    CheckingCopy,
    Renaming,
    CheckingArtifact,
    SyncingBest,
    SyncingRun,
    /// The temporary file is being removed; the promotion failed before the artifact was
    /// published.
    CleaningTemporary,
    /// The artifact is being removed after an interrupt.
    Withdrawing,
    SyncingWithdrawal,
    /// The artifact is being removed because it could not be made durable.
    RollingBack,
    SyncingBestRemoval,
    SyncingRunRemoval,
    Over,
}

/// What an operation of a promotion came to.
#[derive(Debug)]
pub enum PromoteEvent {
    Checked(bool),
    /// The outcome of an operation that can fail in its own ways.
    Verified(Result<(), PromotionError>),
    /// The outcome of an operation on a directory, with its message.
    Did(Result<(), String>),
    /// What the copy holds.
    Hashed(HashRead),
}

/// The next operation of a promotion.
#[derive(Debug)]
pub enum PromoteAction {
    CheckInterrupt,
    /// Check that the source is unchanged.
    Verify,
    CreateDirectory,
    CreateTemporary,
    Copy,
    /// Read the copy for its digest.
    Hash,
    /// Rename the copy into place, unless something is there.
    Publish,
    SyncBest,
    SyncRun,
    RemoveTemporary,
    RemoveArtifact,
    Finish(Result<PromotionRecord, PromotionError>),
}

/// A promotion in progress.
#[derive(Debug)]
pub struct Promotion {
    pub step: PromoteStep,
    pub error: PromotionError,
    pub promoted_sha256: String,
}

/// A promotion, as sequences.
#[verifier::ext_equal]
pub struct PromotionView {
    pub step: PromoteStep,
    pub error: PromotionErrorView,
    pub promoted_sha256: Seq<char>,
}

impl View for Promotion {
    type V = PromotionView;

    open spec fn view(&self) -> PromotionView {
        PromotionView {
            step: self.step,
            error: self.error@,
            promoted_sha256: self.promoted_sha256@,
        }
    }
}

/// The next operation of a promotion, without what its end says.
pub enum PromoteActionView {
    CheckInterrupt,
    Verify,
    CreateDirectory,
    CreateTemporary,
    Copy,
    Hash,
    Publish,
    SyncBest,
    SyncRun,
    RemoveTemporary,
    RemoveArtifact,
    Promoted,
    Failed(PromotionErrorView),
}

impl View for PromoteAction {
    type V = PromoteActionView;

    open spec fn view(&self) -> PromoteActionView {
        match *self {
            PromoteAction::CheckInterrupt => PromoteActionView::CheckInterrupt,
            PromoteAction::Verify => PromoteActionView::Verify,
            PromoteAction::CreateDirectory => PromoteActionView::CreateDirectory,
            PromoteAction::CreateTemporary => PromoteActionView::CreateTemporary,
            PromoteAction::Copy => PromoteActionView::Copy,
            PromoteAction::Hash => PromoteActionView::Hash,
            PromoteAction::Publish => PromoteActionView::Publish,
            PromoteAction::SyncBest => PromoteActionView::SyncBest,
            PromoteAction::SyncRun => PromoteActionView::SyncRun,
            PromoteAction::RemoveTemporary => PromoteActionView::RemoveTemporary,
            PromoteAction::RemoveArtifact => PromoteActionView::RemoveArtifact,
            PromoteAction::Finish(Ok(_)) => PromoteActionView::Promoted,
            PromoteAction::Finish(Err(error)) => PromoteActionView::Failed(error@),
        }
    }
}

/// Whether an event is one that a promotion waits for.
pub open spec fn is_promote_outcome(step: PromoteStep, event: PromoteEvent) -> bool {
    match step {
        PromoteStep::Beginning | PromoteStep::CheckingCopy | PromoteStep::CheckingArtifact => {
            event is Checked
        },
        PromoteStep::Verifying | PromoteStep::Copying => event is Verified,
        PromoteStep::Hashing => event is Hashed,
        PromoteStep::Over => false,
        _ => event is Did,
    }
}

/// The operation that a step waits for.
pub open spec fn awaited(step: PromoteStep) -> PromoteActionView {
    match step {
        PromoteStep::Beginning => PromoteActionView::CheckInterrupt,
        PromoteStep::Verifying => PromoteActionView::Verify,
        PromoteStep::CreatingDirectory => PromoteActionView::CreateDirectory,
        PromoteStep::CreatingTemporary => PromoteActionView::CreateTemporary,
        PromoteStep::Copying => PromoteActionView::Copy,
        PromoteStep::Hashing => PromoteActionView::Hash,
        PromoteStep::CheckingCopy => PromoteActionView::CheckInterrupt,
        PromoteStep::Renaming => PromoteActionView::Publish,
        PromoteStep::CheckingArtifact => PromoteActionView::CheckInterrupt,
        PromoteStep::SyncingBest => PromoteActionView::SyncBest,
        PromoteStep::SyncingRun => PromoteActionView::SyncRun,
        PromoteStep::CleaningTemporary => PromoteActionView::RemoveTemporary,
        PromoteStep::Withdrawing => PromoteActionView::RemoveArtifact,
        PromoteStep::SyncingWithdrawal => PromoteActionView::SyncBest,
        PromoteStep::RollingBack => PromoteActionView::RemoveArtifact,
        PromoteStep::SyncingBestRemoval => PromoteActionView::SyncBest,
        PromoteStep::SyncingRunRemoval => PromoteActionView::SyncRun,
        PromoteStep::Over => PromoteActionView::Promoted,
    }
}

/// A promotion that goes on at a step.
pub open spec fn continues(promotion: PromotionView, step: PromoteStep) -> (
    PromotionView,
    PromoteActionView,
) {
    (PromotionView { step, ..promotion }, awaited(step))
}

/// A promotion that goes on at a step, to fail with an error.
pub open spec fn undoes(
    promotion: PromotionView,
    step: PromoteStep,
    error: PromotionErrorView,
) -> (PromotionView, PromoteActionView) {
    (PromotionView { step, error, ..promotion }, awaited(step))
}

/// A promotion that ends with an error.
pub open spec fn fails(promotion: PromotionView, error: PromotionErrorView) -> (
    PromotionView,
    PromoteActionView,
) {
    (PromotionView { step: PromoteStep::Over, ..promotion }, PromoteActionView::Failed(error))
}

/// A promotion after an operation on a directory.
pub open spec fn after_directory(promotion: PromotionView, done: Result<(), String>) -> (
    PromotionView,
    PromoteActionView,
) {
    match promotion.step {
        PromoteStep::CreatingDirectory => match done {
            Ok(_) => continues(promotion, PromoteStep::CreatingTemporary),
            Err(message) => fails(promotion, unwritten(message@)),
        },
        PromoteStep::CreatingTemporary => match done {
            Ok(_) => continues(promotion, PromoteStep::Copying),
            Err(message) => fails(promotion, unwritten(message@)),
        },
        PromoteStep::Renaming => match done {
            Ok(_) => continues(promotion, PromoteStep::CheckingArtifact),
            Err(message) => undoes(
                promotion,
                PromoteStep::CleaningTemporary,
                unwritten("Could not publish promoted artifact: "@ + message@),
            ),
        },
        PromoteStep::SyncingBest => match done {
            Ok(_) => continues(promotion, PromoteStep::SyncingRun),
            Err(message) => undoes(promotion, PromoteStep::RollingBack, unwritten(message@)),
        },
        PromoteStep::SyncingRun => match done {
            Ok(_) => (
                PromotionView { step: PromoteStep::Over, ..promotion },
                PromoteActionView::Promoted,
            ),
            Err(message) => undoes(promotion, PromoteStep::RollingBack, unwritten(message@)),
        },
        PromoteStep::CleaningTemporary => fails(promotion, promotion.error),
        PromoteStep::Withdrawing => continues(promotion, PromoteStep::SyncingWithdrawal),
        PromoteStep::SyncingWithdrawal => fails(promotion, promotion.error),
        PromoteStep::RollingBack => match done {
            Ok(_) => undoes(
                promotion,
                PromoteStep::SyncingBestRemoval,
                unwritten(
                    promotion.error.message
                        + " The published artifact was removed before reporting the failure."@,
                ),
            ),
            Err(message) => fails(
                promotion,
                unwritten(
                    promotion.error.message + " Artifact removal also failed: "@ + message@,
                ),
            ),
        },
        PromoteStep::SyncingBestRemoval => match done {
            Ok(_) => continues(promotion, PromoteStep::SyncingRunRemoval),
            Err(message) => fails(
                promotion,
                unwritten(
                    promotion.error.message + " Artifact removal sync also failed: "@ + message@,
                ),
            ),
        },
        _ => match done {
            Ok(_) => fails(promotion, unwritten(promotion.error.message)),
            Err(message) => fails(
                promotion,
                unwritten(
                    promotion.error.message + " Artifact removal sync also failed: "@ + message@,
                ),
            ),
        },
    }
}

/// A promotion after an event.
pub open spec fn promoted(
    promotion: PromotionView,
    artifact: ArtifactView,
    event: PromoteEvent,
) -> (PromotionView, PromoteActionView) {
    match event {
        PromoteEvent::Checked(interrupted) => match promotion.step {
            PromoteStep::Beginning => if interrupted {
                fails(promotion, interruption())
            } else {
                continues(promotion, PromoteStep::Verifying)
            },
            PromoteStep::CheckingCopy => if interrupted {
                undoes(promotion, PromoteStep::CleaningTemporary, interruption())
            } else {
                continues(promotion, PromoteStep::Renaming)
            },
            _ => if interrupted {
                undoes(promotion, PromoteStep::Withdrawing, interruption())
            } else {
                continues(promotion, PromoteStep::SyncingBest)
            },
        },
        PromoteEvent::Verified(verified) => if promotion.step == PromoteStep::Verifying {
            match verified {
                Ok(_) => continues(promotion, PromoteStep::CreatingDirectory),
                Err(error) => fails(promotion, error@),
            }
        } else {
            match verified {
                Ok(_) => continues(promotion, PromoteStep::Hashing),
                Err(error) => undoes(promotion, PromoteStep::CleaningTemporary, error@),
            }
        },
        PromoteEvent::Hashed(read) => match open_digest(read) {
            Err(error) => fails(promotion, error),
            Ok(digest) => if digest != artifact.expected_sha256 {
                undoes(
                    promotion,
                    PromoteStep::CleaningTemporary,
                    mismatch("Copied artifact checksum did not match the confirmed candidate."@),
                )
            } else {
                (
                    PromotionView {
                        step: PromoteStep::CheckingCopy,
                        promoted_sha256: digest,
                        ..promotion
                    },
                    PromoteActionView::CheckInterrupt,
                )
            },
        },
        PromoteEvent::Did(done) => after_directory(promotion, done),
    }
}

/// Where the promoted artifact of a run lies.
pub open spec fn promoted_path_of(run_directory: Seq<u8>) -> Seq<u8> {
    join_path(run_directory, encode_utf8("best/artifact"@))
}

/// Whether a record is that of a promotion of an artifact.
pub open spec fn records_promotion(
    record: PromotionRecord,
    run_directory: Seq<u8>,
    artifact: ArtifactView,
    strategy: Strategy,
    promoted_sha256: Seq<char>,
) -> bool {
    &&& record.source_strategy == strategy
    &&& record.source_path@ == artifact.source_path
    &&& record.source_sha256@ == artifact.expected_sha256
    &&& record.promoted_path@ == promoted_path_of(run_directory)
    &&& record.promoted_sha256@ == promoted_sha256
    &&& record.size_bytes == artifact.size_bytes
    &&& record.permissions_mode == artifact.permissions_mode
}

impl Promotion {
    /// Starts a promotion: it sees first whether the run was interrupted.
    pub fn start() -> (started: (Promotion, PromoteAction))
        ensures
            started.0.step == PromoteStep::Beginning,
            started.0.error@ == interruption(),
            started.0.promoted_sha256@.len() == 0,
            started.1 is CheckInterrupt,
    {
        (
            Promotion {
                step: PromoteStep::Beginning,
                error: interrupted_error(),
                promoted_sha256: String::new(),
            },
            PromoteAction::CheckInterrupt,
        )
    }

    fn fail(&mut self, error: PromotionError) -> (action: PromoteAction)
        ensures
            (final(self)@, action@) == fails(old(self)@, error@),
    {
        self.step = PromoteStep::Over;
        PromoteAction::Finish(Err(error))
    }

    fn fail_with_error(&mut self) -> (action: PromoteAction)
        ensures
            (final(self)@, action@) == fails(old(self)@, old(self)@.error),
    {
        let error = PromotionError {
            kind: self.error.kind,
            message: self.error.message.clone(),
        };
        self.fail(error)
    }

    fn clean_temporary(&mut self, error: PromotionError) -> (action: PromoteAction)
        ensures
            (final(self)@, action@) == undoes(
                old(self)@,
                PromoteStep::CleaningTemporary,
                error@,
            ),
    {
        self.error = error;
        self.step = PromoteStep::CleaningTemporary;
        PromoteAction::RemoveTemporary
    }

    fn roll_back(&mut self, message: String) -> (action: PromoteAction)
        ensures
            (final(self)@, action@) == undoes(
                old(self)@,
                PromoteStep::RollingBack,
                unwritten(message@),
            ),
    {
        self.error = filesystem_error(message);
        self.step = PromoteStep::RollingBack;
        PromoteAction::RemoveArtifact
    }

    fn fail_unsynced(&mut self, message: &str) -> (action: PromoteAction)
        ensures
            (final(self)@, action@) == fails(
                old(self)@,
                unwritten(
                    old(self)@.error.message + " Artifact removal sync also failed: "@ + message@,
                ),
            ),
    {
        let full = text3(
            self.error.message.as_str(),
            " Artifact removal sync also failed: ",
            message,
        );
        self.fail(filesystem_error(full))
    }

    fn take_directory(
        &mut self,
        run_directory: &[u8],
        artifact: &AnchoredArtifact,
        strategy: Strategy,
        done: Result<(), String>,
    ) -> (action: PromoteAction)
        requires
            is_promote_outcome(old(self).step, PromoteEvent::Did(done)),
        ensures
            (final(self)@, action@) == after_directory(old(self)@, done),
            action matches PromoteAction::Finish(Ok(record)) ==> records_promotion(
                record,
                run_directory@,
                artifact@,
                strategy,
                old(self)@.promoted_sha256,
            ),
    {
        match self.step {
            PromoteStep::CreatingDirectory => match done {
                Ok(_) => {
                    self.step = PromoteStep::CreatingTemporary;
                    PromoteAction::CreateTemporary
                },
                Err(message) => self.fail(filesystem_error(message)),
            },
            PromoteStep::CreatingTemporary => match done {
                Ok(_) => {
                    self.step = PromoteStep::Copying;
                    PromoteAction::Copy
                },
                Err(message) => self.fail(filesystem_error(message)),
            },
            PromoteStep::Renaming => match done {
                Ok(_) => {
                    self.step = PromoteStep::CheckingArtifact;
                    PromoteAction::CheckInterrupt
                },
                Err(message) => {
                    let full = text2("Could not publish promoted artifact: ", message.as_str());
                    self.clean_temporary(filesystem_error(full))
                },
            },
            PromoteStep::SyncingBest => match done {
                Ok(_) => {
                    self.step = PromoteStep::SyncingRun;
                    PromoteAction::SyncRun
                },
                Err(message) => self.roll_back(message),
            },
            PromoteStep::SyncingRun => match done {
                Ok(_) => {
                    self.step = PromoteStep::Over;
                    PromoteAction::Finish(
                        Ok(
                            PromotionRecord {
                                source_strategy: strategy,
                                source_path: artifact.source_path.clone(),
                                source_sha256: artifact.expected_sha256.clone(),
                                promoted_path: join(run_directory, "best/artifact".as_bytes()),
                                promoted_sha256: self.promoted_sha256.clone(),
                                size_bytes: artifact.size_bytes,
                                permissions_mode: artifact.permissions_mode,
                            },
                        ),
                    )
                },
                Err(message) => self.roll_back(message),
            },
            PromoteStep::CleaningTemporary => self.fail_with_error(),
            PromoteStep::Withdrawing => {
                self.step = PromoteStep::SyncingWithdrawal;
                PromoteAction::SyncBest
            },
            PromoteStep::SyncingWithdrawal => self.fail_with_error(),
            PromoteStep::RollingBack => match done {
                Ok(_) => {
                    let full = text2(
                        self.error.message.as_str(),
                        " The published artifact was removed before reporting the failure.",
                    );
                    self.error = filesystem_error(full);
                    self.step = PromoteStep::SyncingBestRemoval;
                    PromoteAction::SyncBest
                },
                Err(message) => {
                    let full = text3(
                        self.error.message.as_str(),
                        " Artifact removal also failed: ",
                        message.as_str(),
                    );
                    self.fail(filesystem_error(full))
                },
            },
            PromoteStep::SyncingBestRemoval => match done {
                Ok(_) => {
                    self.step = PromoteStep::SyncingRunRemoval;
                    PromoteAction::SyncRun
                },
                Err(message) => self.fail_unsynced(message.as_str()),
            },
            _ => match done {
                Ok(_) => {
                    let message = self.error.message.clone();
                    self.fail(filesystem_error(message))
                },
                Err(message) => self.fail_unsynced(message.as_str()),
            },
        }
    }

    /// Takes what the last operation of a promotion came to, and says what is to be done next.
    pub fn promote_artifact(
        &mut self,
        run_directory: &[u8],
        artifact: &AnchoredArtifact,
        strategy: Strategy,
        event: PromoteEvent,
    ) -> (action: PromoteAction)
        requires
            is_promote_outcome(old(self).step, event),
        ensures
            (final(self)@, action@) == promoted(old(self)@, artifact@, event),
            action matches PromoteAction::Finish(Ok(record)) ==> records_promotion(
                record,
                run_directory@,
                artifact@,
                strategy,
                old(self)@.promoted_sha256,
            ),
    {
        match event {
            PromoteEvent::Checked(interrupted) => match self.step {
                PromoteStep::Beginning => {
                    if interrupted {
                        return self.fail(interrupted_error());
                    }
                    self.step = PromoteStep::Verifying;
                    PromoteAction::Verify
                },
                PromoteStep::CheckingCopy => {
                    if interrupted {
                        return self.clean_temporary(interrupted_error());
                    }
                    self.step = PromoteStep::Renaming;
                    PromoteAction::Publish
                },
                _ => {
                    if interrupted {
                        self.error = interrupted_error();
                        self.step = PromoteStep::Withdrawing;
                        return PromoteAction::RemoveArtifact;
                    }
                    self.step = PromoteStep::SyncingBest;
                    PromoteAction::SyncBest
                },
            },
            PromoteEvent::Verified(verified) => {
                if self.step == PromoteStep::Verifying {
                    match verified {
                        Ok(_) => {
                            self.step = PromoteStep::CreatingDirectory;
                            PromoteAction::CreateDirectory
                        },
                        Err(error) => self.fail(error),
                    }
                } else {
                    match verified {
                        Ok(_) => {
                            self.step = PromoteStep::Hashing;
                            PromoteAction::Hash
                        },
                        Err(error) => self.clean_temporary(error),
                    }
                }
            },
            PromoteEvent::Hashed(read) => match sha256_open_file(&read) {
                Err(error) => self.fail(error),
                Ok(digest) => {
                    if !same_text(digest.as_str(), artifact.expected_sha256.as_str()) {
                        return self.clean_temporary(
                            checksum_error(
                                "Copied artifact checksum did not match the confirmed candidate.".to_owned(),
                            ),
                        );
                    }
                    self.promoted_sha256 = digest;
                    self.step = PromoteStep::CheckingCopy;
                    PromoteAction::CheckInterrupt
                },
            },
            PromoteEvent::Did(done) => self.take_directory(
                run_directory,
                artifact,
                strategy,
                done,
            ),
        }
    }
}

/// What lies in the directory of promoted artifacts: the artifact, and the copy in progress.
pub struct Shelf {
    pub artifact: Option<Seq<u8>>,
    pub temporary: Option<Seq<u8>>,
}

/// Whether an operation that came to `event` can lead from `before` to `after`.
pub open spec fn shelf_can_lead(
    before: Shelf,
    action: PromoteActionView,
    event: PromoteEvent,
    after: Shelf,
) -> bool {
    let done = event is Did && event->Did_0 is Ok;
    match action {
        PromoteActionView::CreateTemporary => if done {
            before.temporary is None && after == (Shelf { temporary: Some(Seq::empty()), ..before })
        } else {
            after == before
        },
        PromoteActionView::Copy => after.artifact == before.artifact && after.temporary is Some,
        PromoteActionView::Hash => after == before && (event matches PromoteEvent::Hashed(
            HashRead::Contents(bytes),
        ) ==> before.temporary == Some(bytes@)),
        PromoteActionView::Publish => if done {
            before.artifact is None && after == (Shelf {
                artifact: before.temporary,
                temporary: None,
            })
        } else {
            after == before
        },
        PromoteActionView::RemoveTemporary => after == if done {
            Shelf { temporary: None, ..before }
        } else {
            before
        },
        PromoteActionView::RemoveArtifact => after == if done {
            Shelf { artifact: None, ..before }
        } else {
            before
        },
        _ => after == before,
    }
}

/// What holds of the shelf while a promotion is at its step, where no artifact failed to be
/// removed.
pub open spec fn shelf_holds(
    promotion: PromotionView,
    artifact: ArtifactView,
    shelf: Shelf,
    initial: Option<Seq<u8>>,
) -> bool {
    let copied = shelf.temporary is Some && sha256_text(shelf.temporary->0)
        == artifact.expected_sha256 && promotion.promoted_sha256 == artifact.expected_sha256;
    let published = shelf.artifact is Some && sha256_text(shelf.artifact->0)
        == artifact.expected_sha256 && promotion.promoted_sha256 == artifact.expected_sha256
        && initial is None;
    match promotion.step {
        PromoteStep::CheckingCopy | PromoteStep::Renaming => shelf.artifact == initial && copied,
        PromoteStep::CheckingArtifact | PromoteStep::SyncingBest | PromoteStep::SyncingRun => {
            published
        },
        PromoteStep::Withdrawing | PromoteStep::RollingBack => initial is None,
        PromoteStep::Over => true,
        _ => shelf.artifact == initial,
    }
}

/// Whether an operation failed to remove the artifact.
pub open spec fn removal_failed(action: PromoteActionView, event: PromoteEvent) -> bool {
    action is RemoveArtifact && !(event is Did && event->Did_0 is Ok)
}

/// A step of a promotion keeps what holds of the shelf; an error leaves the artifact as it was,
/// and a promoted artifact has the checksum of the confirmed candidate.
pub proof fn law_promotion_steps_protect_the_artifact(
    promotion: PromotionView,
    artifact: ArtifactView,
    shelf: Shelf,
    event: PromoteEvent,
    after: Shelf,
    initial: Option<Seq<u8>>,
)
    requires
        is_promote_outcome(promotion.step, event),
        shelf_holds(promotion, artifact, shelf, initial),
        shelf_can_lead(shelf, awaited(promotion.step), event, after),
        !removal_failed(awaited(promotion.step), event),
    ensures
        shelf_holds(promoted(promotion, artifact, event).0, artifact, after, initial),
        promoted(promotion, artifact, event).1 is Failed ==> after.artifact == initial,
        promoted(promotion, artifact, event).1 is Promoted ==> initial is None && after.artifact
            is Some && sha256_text(after.artifact->0) == artifact.expected_sha256
            && promotion.promoted_sha256 == artifact.expected_sha256,
{
}

/// Whether `events` take a promotion through `shelves` without failing to remove an artifact.
pub open spec fn is_promotion_run(
    promotion: PromotionView,
    artifact: ArtifactView,
    shelves: Seq<Shelf>,
    events: Seq<PromoteEvent>,
) -> bool
    decreases events.len(),
{
    &&& shelves.len() == events.len() + 1
    &&& events.len() > 0 ==> {
        &&& is_promote_outcome(promotion.step, events[0])
        &&& shelf_can_lead(shelves[0], awaited(promotion.step), events[0], shelves[1])
        &&& !removal_failed(awaited(promotion.step), events[0])
        &&& is_promotion_run(
            promoted(promotion, artifact, events[0]).0,
            artifact,
            shelves.drop_first(),
            events.drop_first(),
        )
    }
}

/// The operation that follows `events`.
pub open spec fn promotion_action_after(
    promotion: PromotionView,
    artifact: ArtifactView,
    events: Seq<PromoteEvent>,
) -> PromoteActionView
    decreases events.len(),
{
    if events.len() == 0 {
        awaited(promotion.step)
    } else if events.len() == 1 {
        promoted(promotion, artifact, events[0]).1
    } else {
        promotion_action_after(
            promoted(promotion, artifact, events[0]).0,
            artifact,
            events.drop_first(),
        )
    }
}

/// A failed promotion leaves the artifact as it was; a promoted one stands where there was none,
/// and has the checksum of the confirmed candidate. This holds of every run in which no published
/// artifact failed to be removed.
pub proof fn law_failed_promotions_publish_nothing(
    promotion: PromotionView,
    artifact: ArtifactView,
    shelves: Seq<Shelf>,
    events: Seq<PromoteEvent>,
)
    requires
        promotion.step == PromoteStep::Beginning,
        events.len() > 0,
        is_promotion_run(promotion, artifact, shelves, events),
    ensures
        promotion_action_after(promotion, artifact, events) is Failed ==> shelves.last().artifact
            == shelves[0].artifact,
        promotion_action_after(promotion, artifact, events) is Promoted
            ==> shelves[0].artifact is None && shelves.last().artifact is Some && sha256_text(
            shelves.last().artifact->0,
        ) == artifact.expected_sha256,
{
    lemma_promotion_run(promotion, artifact, shelves, events, shelves[0].artifact);
}

proof fn lemma_promotion_run(
    promotion: PromotionView,
    artifact: ArtifactView,
    shelves: Seq<Shelf>,
    events: Seq<PromoteEvent>,
    initial: Option<Seq<u8>>,
)
    requires
        events.len() > 0,
        is_promotion_run(promotion, artifact, shelves, events),
        shelf_holds(promotion, artifact, shelves[0], initial),
    ensures
        promotion_action_after(promotion, artifact, events) is Failed ==> shelves.last().artifact
            == initial,
        promotion_action_after(promotion, artifact, events) is Promoted ==> initial is None
            && shelves.last().artifact is Some && sha256_text(shelves.last().artifact->0)
            == artifact.expected_sha256,
    decreases events.len(),
{
    let next = promoted(promotion, artifact, events[0]).0;
    law_promotion_steps_protect_the_artifact(
        promotion,
        artifact,
        shelves[0],
        events[0],
        shelves[1],
        initial,
    );
    if events.len() == 1 {
        assert(shelves.last() == shelves[1]);
    } else {
        assert(shelves.drop_first()[0] == shelves[1]);
        assert(shelves.drop_first().last() == shelves.last());
        lemma_promotion_run(
            next,
            artifact,
            shelves.drop_first(),
            events.drop_first(),
            initial,
        );
    }
}

/// Where the withdrawal of a promoted artifact is.
#[derive(Clone, Copy, Debug, PartialEq, Eq, Structural)]
pub enum DiscardStep {
    OpeningDirectory,
    Removing,
    SyncingBest,
    SyncingRun,
    Over,
}

/// The next operation of the withdrawal of a promoted artifact.
#[derive(Debug)]
pub enum DiscardAction {
    Remove,
    SyncBest,
    SyncRun,
    Finish(Result<(), PromotionError>),
}

/// The next operation of a withdrawal, as sequences.
pub enum DiscardActionView {
    Remove,
    SyncBest,
    SyncRun,
    Finish(Result<(), PromotionErrorView>),
}

impl View for DiscardAction {
    type V = DiscardActionView;

    open spec fn view(&self) -> DiscardActionView {
        match *self {
            DiscardAction::Remove => DiscardActionView::Remove,
            DiscardAction::SyncBest => DiscardActionView::SyncBest,
            DiscardAction::SyncRun => DiscardActionView::SyncRun,
            DiscardAction::Finish(Ok(_)) => DiscardActionView::Finish(Ok(())),
            DiscardAction::Finish(Err(error)) => DiscardActionView::Finish(Err(error@)),
        }
    }
}

/// A withdrawal after an operation.
pub open spec fn discarded(step: DiscardStep, done: Result<(), String>) -> (
    DiscardStep,
    DiscardActionView,
) {
    match done {
        Err(message) => (
            DiscardStep::Over,
            DiscardActionView::Finish(Err(unwritten(message@))),
        ),
        Ok(_) => match step {
            DiscardStep::OpeningDirectory => (DiscardStep::Removing, DiscardActionView::Remove),
            DiscardStep::Removing => (DiscardStep::SyncingBest, DiscardActionView::SyncBest),
            DiscardStep::SyncingBest => (DiscardStep::SyncingRun, DiscardActionView::SyncRun),
            _ => (DiscardStep::Over, DiscardActionView::Finish(Ok(()))),
        },
    }
}

/// Takes what the last operation of a withdrawal came to, and says what is to be done next. The
/// withdrawal starts out with its directory to be opened.
pub fn discard_promoted_artifact(step: &mut DiscardStep, done: Result<(), String>) -> (action:
    DiscardAction)
    ensures
        (*final(step), action@) == discarded(*old(step), done),
{
    match done {
        Err(message) => {
            *step = DiscardStep::Over;
            DiscardAction::Finish(Err(filesystem_error(message)))
        },
        Ok(_) => match *step {
            DiscardStep::OpeningDirectory => {
                *step = DiscardStep::Removing;
                DiscardAction::Remove
            },
            DiscardStep::Removing => {
                *step = DiscardStep::SyncingBest;
                DiscardAction::SyncBest
            },
            DiscardStep::SyncingBest => {
                *step = DiscardStep::SyncingRun;
                DiscardAction::SyncRun
            },
            _ => {
                *step = DiscardStep::Over;
                DiscardAction::Finish(Ok(()))
            },
        },
    }
}

/// An artifact is anchored exactly where its run is still the same, it lies in the confirmation
/// directory of that run, and it is a regular file with the expected digest; it is then known by
/// its path, size, permissions, device and inode.
pub proof fn law_artifacts_are_anchored_exactly(
    run_directory: Seq<u8>,
    source: Seq<u8>,
    expected_sha256: Seq<char>,
    facts: ArtifactFacts,
)
    ensures
        ({
            let outcome = artifact_outcome(run_directory, source, expected_sha256, facts);
            &&& outcome is Ok <==> {
                &&& facts.canonical_run is Ok && parts(facts.canonical_run->Ok_0@) == parts(
                    run_directory,
                )
                &&& facts.confirmation_root is Ok && lies_within(
                    facts.confirmation_root->Ok_0@,
                    run_directory,
                )
                &&& facts.canonical_source is Ok && lies_within(
                    facts.canonical_source->Ok_0@,
                    facts.confirmation_root->Ok_0@,
                )
                &&& facts.opened is Ok
                &&& facts.metadata is Ok && facts.metadata->Ok_0.regular
                &&& facts.contents is Contents && sha256_text(facts.contents->Contents_0@)
                    == expected_sha256
            }
            &&& outcome is Ok ==> {
                &&& outcome->Ok_0.source_path == facts.canonical_source->Ok_0@
                &&& outcome->Ok_0.expected_sha256 == expected_sha256
                &&& outcome->Ok_0.size_bytes == facts.metadata->Ok_0.size_bytes
                &&& outcome->Ok_0.permissions_mode == facts.metadata->Ok_0.mode & 0o7777
                &&& outcome->Ok_0.device == facts.metadata->Ok_0.device
                &&& outcome->Ok_0.inode == facts.metadata->Ok_0.inode
            }
        }),
{
}

/// An artifact is what it was exactly where its path, device, inode and size are the same, and both
/// the file at its path and the open one have its digest.
pub proof fn law_artifacts_stay_unchanged_exactly(artifact: ArtifactView, facts: UnchangedFacts)
    ensures
        change(artifact, facts) is None <==> {
            &&& facts.canonical is Ok && parts(facts.canonical->Ok_0@) == parts(
                artifact.source_path,
            )
            &&& facts.metadata is Ok
            &&& facts.metadata->Ok_0.device == artifact.device
            &&& facts.metadata->Ok_0.inode == artifact.inode
            &&& facts.metadata->Ok_0.size_bytes == artifact.size_bytes
            &&& facts.path_sha256 is Ok && facts.path_sha256->Ok_0@ == artifact.expected_sha256
            &&& facts.contents is Contents && sha256_text(facts.contents->Contents_0@)
                == artifact.expected_sha256
        },
{
}

/// A copy reads and writes until there is nothing more, looking for an interrupt before each read;
/// it then secures the copy, syncs it and is done. Whatever fails ends it.
pub proof fn law_copies_are_whole_secured_and_synced(more: bool, error: String)
    ensures
        copied(CopyStep::Opening, CopyEvent::Opened(Ok(()))) == (
            CopyStep::Checking,
            CopyActionView::CheckInterrupt,
        ),
        copied(CopyStep::Checking, CopyEvent::Checked(false)) == (
            CopyStep::Reading,
            CopyActionView::Read,
        ),
        copied(CopyStep::Checking, CopyEvent::Checked(true)).0 == CopyStep::Over,
        copied(CopyStep::Checking, CopyEvent::Checked(true)).1->Finish_0->Err_0.kind
            == PromotionErrorKind::Interrupted,
        copied(CopyStep::Reading, CopyEvent::Read(Ok(more))) == if more {
            (CopyStep::Writing, CopyActionView::Write)
        } else {
            (CopyStep::Securing, CopyActionView::Secure)
        },
        copied(CopyStep::Writing, CopyEvent::Did(Ok(()))) == (
            CopyStep::Checking,
            CopyActionView::CheckInterrupt,
        ),
        copied(CopyStep::Securing, CopyEvent::Did(Ok(()))) == (
            CopyStep::Syncing,
            CopyActionView::Sync,
        ),
        copied(CopyStep::Syncing, CopyEvent::Did(Ok(()))) == (
            CopyStep::Over,
            CopyActionView::Finish(Ok(())),
        ),
        forall|step: CopyStep, event: CopyEvent|
            event == CopyEvent::Opened(Err(error)) || event == CopyEvent::Read(Err(error)) || event
                == CopyEvent::Did(Err(error)) ==> (#[trigger] copied(step, event)).0
                == CopyStep::Over && copied(step, event).1 is Finish && copied(
                step,
                event,
            ).1->Finish_0 is Err,
{
}

/// A promotion verifies its source, makes a private copy, compares its digest, publishes it, and
/// syncs both directories before it is done, looking for an interrupt at the start, before it
/// publishes and before it syncs.
pub proof fn law_promotions_check_copy_publish_and_sync(
    promotion: PromotionView,
    artifact: ArtifactView,
    bytes: Vec<u8>,
)
    ensures
        ({
            let quiet = promoted(promotion, artifact, PromoteEvent::Checked(false)).1;
            let verified = promoted(promotion, artifact, PromoteEvent::Verified(Ok(()))).1;
            let hashed = promoted(
                promotion,
                artifact,
                PromoteEvent::Hashed(HashRead::Contents(bytes)),
            ).1;
            let done = promoted(promotion, artifact, PromoteEvent::Did(Ok(()))).1;
            &&& promotion.step == PromoteStep::Beginning ==> quiet is Verify
            &&& promotion.step == PromoteStep::Verifying ==> verified is CreateDirectory
            &&& promotion.step == PromoteStep::CreatingDirectory ==> done is CreateTemporary
            &&& promotion.step == PromoteStep::CreatingTemporary ==> done is Copy
            &&& promotion.step == PromoteStep::Copying ==> verified is Hash
            &&& promotion.step == PromoteStep::Hashing && sha256_text(bytes@)
                == artifact.expected_sha256 ==> hashed is CheckInterrupt
            &&& promotion.step == PromoteStep::Hashing && sha256_text(bytes@)
                != artifact.expected_sha256 ==> hashed is RemoveTemporary
            &&& promotion.step == PromoteStep::CheckingCopy ==> quiet is Publish
            &&& promotion.step == PromoteStep::Renaming ==> done is CheckInterrupt
            &&& promotion.step == PromoteStep::CheckingArtifact ==> quiet is SyncBest
            &&& promotion.step == PromoteStep::SyncingBest ==> done is SyncRun
            &&& promotion.step == PromoteStep::SyncingRun ==> done is Promoted
        }),
{
}

/// A promotion that fails takes back what it did: nothing before it copies, the private copy before
/// it publishes, and the published artifact after that.
pub proof fn law_promotions_take_back_what_they_did(
    promotion: PromotionView,
    artifact: ArtifactView,
    error: PromotionError,
    message: String,
)
    ensures
        ({
            let stopped = promoted(promotion, artifact, PromoteEvent::Checked(true)).1;
            let refused = promoted(promotion, artifact, PromoteEvent::Verified(Err(error))).1;
            let failed = promoted(promotion, artifact, PromoteEvent::Did(Err(message))).1;
            &&& promotion.step == PromoteStep::Beginning ==> stopped is Failed
                && stopped->Failed_0.kind == PromotionErrorKind::Interrupted
            &&& promotion.step == PromoteStep::Verifying ==> refused == PromoteActionView::Failed(
                error@,
            )
            &&& promotion.step == PromoteStep::CreatingDirectory || promotion.step
                == PromoteStep::CreatingTemporary ==> failed is Failed
            &&& promotion.step == PromoteStep::Copying ==> refused is RemoveTemporary
            &&& promotion.step == PromoteStep::CheckingCopy ==> stopped is RemoveTemporary
            &&& promotion.step == PromoteStep::Renaming ==> failed is RemoveTemporary
            &&& promotion.step == PromoteStep::CheckingArtifact ==> stopped is RemoveArtifact
            &&& promotion.step == PromoteStep::SyncingBest || promotion.step
                == PromoteStep::SyncingRun ==> failed is RemoveArtifact
            &&& promotion.step == PromoteStep::RollingBack ==> failed is Failed
        }),
{
}

/// The record of a promotion names the artifact, its strategy, and its place in the run.
pub proof fn law_promotions_are_recorded_with_their_artifact(
    record: PromotionRecord,
    run_directory: Seq<u8>,
    artifact: ArtifactView,
    strategy: Strategy,
    promoted_sha256: Seq<char>,
)
    requires
        records_promotion(record, run_directory, artifact, strategy, promoted_sha256),
    ensures
        record.source_strategy == strategy,
        record.source_path@ == artifact.source_path,
        record.source_sha256@ == artifact.expected_sha256,
        record.promoted_path@ == join_path(run_directory, encode_utf8("best/artifact"@)),
        record.promoted_sha256@ == promoted_sha256,
        record.size_bytes == artifact.size_bytes,
        record.permissions_mode == artifact.permissions_mode,
{
}

/// A withdrawal removes the artifact and syncs both directories before it is done; whatever fails
/// ends it.
pub proof fn law_withdrawals_remove_and_sync(message: String)
    ensures
        discarded(DiscardStep::OpeningDirectory, Ok(())).1 is Remove,
        discarded(discarded(DiscardStep::OpeningDirectory, Ok(())).0, Ok(())).1 is SyncBest,
        discarded(DiscardStep::SyncingBest, Ok(())).1 is SyncRun,
        discarded(DiscardStep::SyncingRun, Ok(())).1 == DiscardActionView::Finish(Ok(())),
        forall|step: DiscardStep|
            (#[trigger] discarded(step, Err(message))).1 is Finish && discarded(
                step,
                Err(message),
            ).1->Finish_0 is Err,
{
}

} // verus!
