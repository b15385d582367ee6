use temper::hash::{sha256_file, FileRead};
use temper::promotion::{
    copy_and_sync, discard_promoted_artifact, AnchoredArtifact, ArtifactFacts, ArtifactMetadata,
    CopyAction, CopyEvent, CopyStep, DiscardAction, DiscardStep, HashRead, PromoteAction,
    PromoteEvent, Promotion, PromotionError, PromotionErrorKind, PromotionRecord, UnchangedFacts,
};
use temper::strategy::Strategy;

const RUN: &[u8] = b"/run";
const SOURCE: &[u8] = b"/run/target/confirmation/thin-lto/candidate";
const CONFIRMED: &[u8] = b"confirmed artifact";

fn digest(bytes: &[u8]) -> String {
    sha256_file(SOURCE, &FileRead::Contents(bytes.to_vec())).expect("checksum")
}

fn metadata(bytes: &[u8]) -> ArtifactMetadata {
    ArtifactMetadata {
        regular: true,
        size_bytes: bytes.len() as u64,
        mode: 0o751,
        device: 3,
        inode: 11,
    }
}

fn artifact_facts(bytes: &[u8]) -> ArtifactFacts {
    ArtifactFacts {
        canonical_run: Ok(RUN.to_vec()),
        confirmation_root: Ok(b"/run/target/confirmation".to_vec()),
        canonical_source: Ok(SOURCE.to_vec()),
        opened: Ok(()),
        metadata: Ok(metadata(bytes)),
        contents: HashRead::Contents(bytes.to_vec()),
    }
}

fn confirmation_artifact() -> AnchoredArtifact {
    AnchoredArtifact::open(RUN, SOURCE, &digest(CONFIRMED), artifact_facts(CONFIRMED))
        .expect("anchor artifact")
}

fn unchanged(bytes: &[u8]) -> UnchangedFacts {
    UnchangedFacts {
        canonical: Ok(SOURCE.to_vec()),
        metadata: Ok(metadata(bytes)),
        path_sha256: Ok(digest(bytes)),
        contents: HashRead::Contents(bytes.to_vec()),
    }
}

/// The directory of promoted artifacts in memory, with what it is to fail on.
struct Shelf {
    source: Vec<u8>,
    artifact: Option<Vec<u8>>,
    temporary: Option<Vec<u8>>,
    checks: usize,
    interrupted_at: Option<usize>,
    sync_calls: usize,
    failing_sync: Option<usize>,
}

impl Shelf {
    fn new() -> Shelf {
        Shelf {
            source: CONFIRMED.to_vec(),
            artifact: None,
            temporary: None,
            checks: 0,
            interrupted_at: None,
            sync_calls: 0,
            failing_sync: None,
        }
    }

    fn interrupted(&mut self) -> bool {
        self.checks += 1;
        self.interrupted_at.is_some_and(|at| self.checks >= at)
    }

    fn sync(&mut self) -> Result<(), String> {
        let call = self.sync_calls;
        self.sync_calls += 1;
        if self.failing_sync == Some(call) {
            Err("injected directory sync failure".to_owned())
        } else {
            Ok(())
        }
    }

    fn copy(&mut self) -> Result<(), PromotionError> {
        let mut step = CopyStep::Opening;
        let mut left = Some(self.source.clone());
        let mut chunk: Vec<u8> = vec![];
        let mut action = copy_and_sync(&mut step, CopyEvent::Opened(Ok(())));
        loop {
            let event = match action {
                CopyAction::CheckInterrupt => CopyEvent::Checked(self.interrupted()),
                CopyAction::Read => {
                    chunk = left.take().unwrap_or_default();
                    CopyEvent::Read(Ok(!chunk.is_empty()))
                }
                CopyAction::Write => {
                    self.temporary.as_mut().expect("temporary").extend_from_slice(&chunk);
                    CopyEvent::Did(Ok(()))
                }
                CopyAction::Secure | CopyAction::Sync => CopyEvent::Did(Ok(())),
                CopyAction::Finish(result) => return result,
            };
            action = copy_and_sync(&mut step, event);
        }
    }

    fn promote(&mut self, artifact: &AnchoredArtifact) -> Result<PromotionRecord, PromotionError> {
        let (mut promotion, mut action) = Promotion::start();
        loop {
            let event = match action {
                PromoteAction::CheckInterrupt => PromoteEvent::Checked(self.interrupted()),
                PromoteAction::Verify => {
                    PromoteEvent::Verified(artifact.verify_unchanged(&unchanged(&self.source)))
                }
                PromoteAction::CreateDirectory => PromoteEvent::Did(Ok(())),
                PromoteAction::CreateTemporary => {
                    self.temporary = Some(vec![]);
                    PromoteEvent::Did(Ok(()))
                }
                PromoteAction::Copy => PromoteEvent::Verified(self.copy()),
                PromoteAction::Hash => PromoteEvent::Hashed(HashRead::Contents(
                    self.temporary.clone().expect("temporary"),
                )),
                PromoteAction::Publish => {
                    if self.artifact.is_some() {
                        PromoteEvent::Did(Err("File exists (os error 17)".to_owned()))
                    } else {
                        self.artifact = self.temporary.take();
                        PromoteEvent::Did(Ok(()))
                    }
                }
                PromoteAction::SyncBest | PromoteAction::SyncRun => PromoteEvent::Did(self.sync()),
                PromoteAction::RemoveTemporary => {
                    self.temporary = None;
                    PromoteEvent::Did(Ok(()))
                }
                PromoteAction::RemoveArtifact => {
                    self.artifact = None;
                    PromoteEvent::Did(Ok(()))
                }
                PromoteAction::Finish(result) => return result,
            };
            action = promotion.promote_artifact(RUN, artifact, Strategy::ThinLto, event);
        }
    }
}

#[test]
fn copies_permissions_and_checksum_without_overwrite() {
    let mut shelf = Shelf::new();
    let record = shelf.promote(&confirmation_artifact()).expect("promotion");
    assert_eq!(record.promoted_sha256, record.source_sha256);
    assert_eq!(record.permissions_mode, 0o751);
    assert_eq!(record.promoted_path, b"/run/best/artifact".to_vec());
    assert_eq!(shelf.artifact.as_deref(), Some(CONFIRMED));
}

#[test]
fn interruption_removes_partial_output() {
    let mut shelf = Shelf::new();
    shelf.interrupted_at = Some(3);
    let result = shelf.promote(&confirmation_artifact());
    assert_eq!(
        result.expect_err("interrupted promotion").kind,
        PromotionErrorKind::Interrupted
    );
    assert!(shelf.artifact.is_none());
    assert!(shelf.temporary.is_none());
}

#[test]
fn discards_a_committed_artifact_before_latest_publication() {
    let mut shelf = Shelf::new();
    shelf.promote(&confirmation_artifact()).expect("promotion");
    assert!(shelf.artifact.is_some());

    let mut step = DiscardStep::OpeningDirectory;
    let mut action = discard_promoted_artifact(&mut step, Ok(()));
    let discarded = loop {
        match action {
            DiscardAction::Remove => shelf.artifact = None,
            DiscardAction::SyncBest | DiscardAction::SyncRun => {}
            DiscardAction::Finish(result) => break result,
        }
        action = discard_promoted_artifact(&mut step, Ok(()));
    };

    assert!(discarded.is_ok());
    assert!(shelf.artifact.is_none());
}

#[test]
fn source_checksum_change_rejects_before_copy() {
    let mut shelf = Shelf::new();
    let artifact = confirmation_artifact();
    shelf.source = b"changed confirmed artifact".to_vec();

    let error = shelf.promote(&artifact).expect_err("checksum change must reject");

    assert_eq!(error.kind, PromotionErrorKind::ChecksumMismatch);
    assert!(shelf.artifact.is_none());
}

#[test]
fn rename_failure_preserves_the_existing_destination() {
    let mut shelf = Shelf::new();
    shelf.artifact = Some(b"existing artifact".to_vec());

    let error = shelf.promote(&confirmation_artifact()).expect_err("rename must not overwrite");

    assert_eq!(error.kind, PromotionErrorKind::Filesystem);
    assert_eq!(shelf.artifact.as_deref(), Some(b"existing artifact".as_slice()));
    assert!(shelf.temporary.is_none());
}

#[test]
fn full_destination_reports_a_filesystem_copy_failure() {
    let mut step = CopyStep::Opening;
    copy_and_sync(&mut step, CopyEvent::Opened(Ok(())));
    copy_and_sync(&mut step, CopyEvent::Checked(false));
    copy_and_sync(&mut step, CopyEvent::Read(Ok(true)));
    let action = copy_and_sync(
        &mut step,
        CopyEvent::Did(Err("No space left on device (os error 28)".to_owned())),
    );
    match action {
        CopyAction::Finish(Err(error)) => {
            assert_eq!(error.kind, PromotionErrorKind::Filesystem);
            assert!(error.message.contains("Artifact copy failed"));
        }
        other => panic!("a full destination must reject writes: {other:?}"),
    }
}

#[test]
fn best_directory_sync_failure_removes_the_renamed_artifact() {
    assert_sync_failure_rolls_back(0);
}

#[test]
fn run_directory_sync_failure_removes_the_renamed_artifact() {
    assert_sync_failure_rolls_back(1);
}

fn assert_sync_failure_rolls_back(failing_call: usize) {
    let mut shelf = Shelf::new();
    shelf.failing_sync = Some(failing_call);

    let error = shelf
        .promote(&confirmation_artifact())
        .expect_err("directory sync failure must reject promotion");

    assert_eq!(error.kind, PromotionErrorKind::Filesystem);
    assert!(shelf.artifact.is_none());
    assert!(shelf.temporary.is_none());
}

#[test]
fn artifacts_outside_the_confirmation_directory_are_not_anchored() {
    let mut outside = artifact_facts(CONFIRMED);
    outside.canonical_source = Ok(b"/elsewhere/candidate".to_vec());
    let error = AnchoredArtifact::open(RUN, SOURCE, &digest(CONFIRMED), outside)
        .expect_err("outside the run");
    assert_eq!(error.kind, PromotionErrorKind::InvalidSource);
    let changed =
        AnchoredArtifact::open(RUN, SOURCE, &digest(b"other"), artifact_facts(CONFIRMED))
            .expect_err("other contents");
    assert_eq!(changed.kind, PromotionErrorKind::ChecksumMismatch);
    let mut moved = artifact_facts(CONFIRMED);
    moved.canonical_run = Ok(b"/moved".to_vec());
    assert!(AnchoredArtifact::open(RUN, SOURCE, &digest(CONFIRMED), moved).is_err());
}

#[test]
fn replaced_artifacts_are_noticed() {
    let artifact = confirmation_artifact();
    assert!(artifact.verify_unchanged(&unchanged(CONFIRMED)).is_ok());
    let mut replaced = unchanged(CONFIRMED);
    replaced.metadata = Ok(ArtifactMetadata { inode: 12, ..metadata(CONFIRMED) });
    let error = artifact.verify_unchanged(&replaced).expect_err("another file");
    assert_eq!(error.kind, PromotionErrorKind::ChecksumMismatch);
}
