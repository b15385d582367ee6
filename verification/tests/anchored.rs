use temper::anchored::{
    backup_name, component, operation_error, replace_and_sync, temporary_name, AnchoredError,
    Operation, Publication, PublishAction, PublishEvent, Reservation, ReserveAction, ReserveStep,
};

/// A directory in memory, with the three names that a publication works on.
struct Directory {
    document: Option<String>,
    temporary: Option<String>,
    backup: Option<String>,
    sync_calls: usize,
    failing_sync: Option<usize>,
}

impl Directory {
    fn new(document: Option<&str>, failing_sync: Option<usize>) -> Directory {
        Directory {
            document: document.map(str::to_owned),
            temporary: None,
            backup: None,
            sync_calls: 0,
            failing_sync,
        }
    }

    fn sync(&mut self) -> Result<(), String> {
        let call = self.sync_calls;
        self.sync_calls += 1;
        if self.failing_sync == Some(call) {
            Err("injected post-rename sync failure".to_owned())
        } else {
            Ok(())
        }
    }

    fn publish(
        &mut self,
        bytes: &str,
        preserve_previous: bool,
        pending: bool,
    ) -> Result<(), AnchoredError> {
        let (mut publication, mut action) = Publication::start(pending, preserve_previous);
        loop {
            let event = match action {
                PublishAction::CheckInterrupt => PublishEvent::Checked(false),
                PublishAction::CheckPending => PublishEvent::Checked(pending),
                PublishAction::Serialize | PublishAction::BlockSignals => {
                    PublishEvent::Did(Ok(()))
                }
                PublishAction::CreateTemporary => {
                    self.temporary = Some(String::new());
                    PublishEvent::Did(Ok(()))
                }
                PublishAction::WriteTemporary => {
                    self.temporary = Some(bytes.to_owned());
                    PublishEvent::Did(Ok(()))
                }
                PublishAction::RemoveBackup => {
                    self.backup = None;
                    PublishEvent::Did(Ok(()))
                }
                PublishAction::RemoveTemporary => {
                    self.temporary = None;
                    PublishEvent::Did(Ok(()))
                }
                PublishAction::RemoveDocument => {
                    self.document = None;
                    PublishEvent::Did(Ok(()))
                }
                PublishAction::LinkPrevious => {
                    self.backup = self.document.clone();
                    PublishEvent::Linked(Ok(self.document.is_some()))
                }
                PublishAction::RenameTemporary => {
                    self.document = self.temporary.take();
                    PublishEvent::Did(Ok(()))
                }
                PublishAction::RestorePrevious => {
                    self.document = self.backup.take();
                    PublishEvent::Did(Ok(()))
                }
                PublishAction::SyncDirectory => PublishEvent::Did(self.sync()),
                PublishAction::Finish(result) => return result,
            };
            action = publication.write_json_atomic(event);
        }
    }
}

#[test]
fn post_rename_sync_failure_restores_the_previous_json() {
    let previous = "{\"generation\":\"previous\"}\n";
    let mut directory = Directory::new(Some(previous), Some(1));

    let error = directory
        .publish("{\"generation\":\"new\"}\n", true, false)
        .expect_err("injected sync failure");

    assert!(!error.committed);
    assert_eq!(directory.document.as_deref(), Some(previous));
    assert_eq!(directory.sync_calls, 3);
    assert!(directory.temporary.is_none());
    assert!(directory.backup.is_none());
}

#[test]
fn post_rename_sync_failure_removes_a_new_json_without_a_previous_value() {
    let mut directory = Directory::new(None, Some(0));

    let error = directory
        .publish("{\"generation\":\"new\"}\n", true, false)
        .expect_err("injected sync failure");

    assert!(!error.committed);
    assert!(directory.document.is_none());
    assert_eq!(directory.sync_calls, 2);
}

#[test]
fn a_publication_replaces_the_document_and_leaves_nothing_else() {
    for previous in [None, Some("old")] {
        let mut directory = Directory::new(previous, None);
        assert!(directory.publish("new", true, false).is_ok());
        assert_eq!(directory.document.as_deref(), Some("new"));
        assert!(directory.temporary.is_none());
        assert!(directory.backup.is_none());
    }
}

#[test]
fn a_pending_signal_keeps_the_previous_document() {
    let mut directory = Directory::new(Some("old"), None);
    let error = directory.publish("new", true, true).expect_err("pending signal");
    assert!(error.interrupted);
    assert!(!error.committed);
    assert_eq!(directory.document.as_deref(), Some("old"));
    assert!(directory.temporary.is_none());
}

fn reserve(bytes: u64, failing: Option<ReserveStep>) -> (Result<(), AnchoredError>, Option<u64>) {
    let mut file: Option<u64> = None;
    let (mut reservation, mut action) = Reservation::start(bytes);
    loop {
        let failed = failing == Some(reservation.step);
        let done = if failed { Err("no space".to_owned()) } else { Ok(()) };
        match action {
            ReserveAction::Create => {
                if !failed {
                    file = Some(0);
                }
            }
            ReserveAction::Allocate => {
                if !failed {
                    file = Some(bytes);
                }
            }
            ReserveAction::Remove => file = None,
            ReserveAction::SyncFile | ReserveAction::SyncDirectory => {}
            ReserveAction::Finish(result) => return (result, file),
        }
        action = reservation.reserve_space(done);
    }
}

#[test]
fn reserved_space_is_allocated_and_releasable() {
    let (result, file) = reserve(128 * 1024, None);
    assert!(result.is_ok());
    assert_eq!(file, Some(128 * 1024));
}

#[test]
fn failed_reservations_leave_no_file() {
    for step in [
        ReserveStep::Creating,
        ReserveStep::Allocating,
        ReserveStep::SyncingFile,
        ReserveStep::SyncingDirectory,
    ] {
        let (result, file) = reserve(128 * 1024, Some(step));
        let error = result.expect_err("failed reservation");
        assert!(!error.committed);
        assert_eq!(file, None);
    }
    let (result, file) = reserve(u64::MAX, None);
    assert_eq!(
        result.expect_err("too long").message,
        "Reserved file length exceeded Linux off_t."
    );
    assert_eq!(file, None);
}

#[test]
fn preallocated_emergency_file_replaces_json_without_a_content_write() {
    let mut active = Some("{\"status\":\"promotion\"}\n");
    let mut emergency = Some("{\"status\":\"failed\"}\n");

    // The replacement is one rename and one sync: no content is written.
    active = emergency.take().or(active);
    replace_and_sync(Ok(()), Ok(())).expect("activate emergency manifest");

    assert_eq!(active, Some("{\"status\":\"failed\"}\n"));
    assert!(emergency.is_none());
}

#[test]
fn a_replacement_that_was_renamed_is_committed() {
    let refused = replace_and_sync(Err("denied".to_owned()), Ok(())).expect_err("rename failed");
    assert!(!refused.committed);
    let unsynced = replace_and_sync(Ok(()), Err("io".to_owned())).expect_err("sync failed");
    assert!(unsynced.committed);
}

#[test]
fn private_names_differ_from_each_other() {
    let temporary = temporary_name("run.json", 41);
    let backup = backup_name("run.json", 41);
    assert_ne!(temporary, backup);
    assert_ne!(temporary, temporary_name("run.json", 42));
    assert!(temporary.starts_with(".run.json."));
    assert!(backup.starts_with(".run.json."));
}

#[test]
fn only_plain_components_are_anchored() {
    assert!(component("run.json").is_ok());
    for name in ["", ".", "..", "a/b", "/a"] {
        assert!(component(name).is_err(), "{name}");
    }
    assert!(operation_error(Operation::Rename, "denied").ends_with("denied"));
}
