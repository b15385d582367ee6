//! Publication of documents in an anchored directory.
//!
//! A document is written to a private temporary file and renamed into place. Each operation on
//! the directory is performed outside; the machines here say which operation is next, and what a
//! failure of it means for the document.

use vstd::prelude::*;
use vstd::string::*;
use vstd::utf8::*;

use crate::paths::{DOT, SEPARATOR};
use crate::text::{decimal, decimal_text, find_byte, first_place, text2, text4};

verus! {

/// A failed operation on an anchored directory.
#[derive(Debug)]
pub struct AnchoredError {
    pub message: String,
    pub committed: bool,
    pub interrupted: bool,
}

/// A failed operation, as a sequence.
#[verifier::ext_equal]
pub struct AnchoredErrorView {
    pub message: Seq<char>,
    pub committed: bool,
    pub interrupted: bool,
}

impl View for AnchoredError {
    type V = AnchoredErrorView;

    open spec fn view(&self) -> AnchoredErrorView {
        AnchoredErrorView {
            message: self.message@,
            committed: self.committed,
            interrupted: self.interrupted,
        }
    }
}

/// A failure that left the published state as it was.
pub open spec fn uncommitted(message: Seq<char>) -> AnchoredErrorView {
    AnchoredErrorView { message, committed: false, interrupted: false }
}

/// An interruption before the publication.
pub open spec fn interruption() -> AnchoredErrorView {
    AnchoredErrorView {
        message: "Publication was interrupted before its atomic commit."@,
        committed: false,
        interrupted: true,
    }
}

pub fn before_commit(message: String) -> (error: AnchoredError)
    ensures
        error@ == uncommitted(message@),
{
    AnchoredError { message, committed: false, interrupted: false }
}

pub fn interrupted_before_commit() -> (error: AnchoredError)
    ensures
        error@ == interruption(),
{
    AnchoredError {
        message: "Publication was interrupted before its atomic commit.".to_owned(),
        committed: false,
        interrupted: true,
    }
}

/// The operations on an anchored directory that the system can refuse.
#[derive(Clone, Copy, Debug, PartialEq, Eq, Structural)]
pub enum Operation {
    Anchor,
    CreateDirectory,
    OpenDirectory,
    SecureDirectory,
    CreateFile,
    Rename,
    Unlink,
    Sync,
    Link,
    BlockSignals,
}

/// What is said of a refused operation.
pub open spec fn operation_context(operation: Operation) -> Seq<char> {
    match operation {
        Operation::Anchor => "Could not anchor directory"@,
        Operation::CreateDirectory => "Could not create anchored directory"@,
        Operation::OpenDirectory => "Could not open anchored directory"@,
        Operation::SecureDirectory => "Could not secure anchored directory"@,
        Operation::CreateFile => "Could not create anchored file"@,
        Operation::Rename => "Could not rename anchored file"@,
        Operation::Unlink => "Could not remove anchored file"@,
        Operation::Sync => "Could not sync anchored directory"@,
        Operation::Link => "Could not preserve the previous anchored file"@,
        Operation::BlockSignals => "Could not block SIGINT around publication"@,
    }
}

/// The message of an operation that the system refused with `error`.
pub fn operation_error(operation: Operation, error: &str) -> (message: String)
    ensures
        message@ == operation_context(operation) + ": "@ + error@,
{
    let context: &str = match operation {
        Operation::Anchor => "Could not anchor directory",
        Operation::CreateDirectory => "Could not create anchored directory",
        Operation::OpenDirectory => "Could not open anchored directory",
        Operation::SecureDirectory => "Could not secure anchored directory",
        Operation::CreateFile => "Could not create anchored file",
        Operation::Rename => "Could not rename anchored file",
        Operation::Unlink => "Could not remove anchored file",
        Operation::Sync => "Could not sync anchored directory",
        Operation::Link => "Could not preserve the previous anchored file",
        Operation::BlockSignals => "Could not block SIGINT around publication",
    };
    let prefix = text2(context, ": ");
    text2(prefix.as_str(), error)
}

/// Whether a name is one plain component.
pub open spec fn is_component(name: Seq<char>) -> bool {
    let bytes = encode_utf8(name);
    &&& bytes.len() > 0
    &&& bytes != seq![DOT]
    &&& bytes != seq![DOT, DOT]
    &&& first_place(bytes, SEPARATOR, 0) is None
}

/// Checks that a name is one plain component without a zero byte.
pub fn component(name: &str) -> (checked: Result<(), AnchoredError>)
    ensures
        match checked {
            Ok(_) => is_component(name@) && first_place(encode_utf8(name@), 0u8, 0) is None,
            Err(error) => error@ == if is_component(name@) {
                uncommitted("Anchored path contained a NUL byte."@)
            } else {
                uncommitted("Anchored path must be one plain component."@)
            } && !(is_component(name@) && first_place(encode_utf8(name@), 0u8, 0) is None),
        },
{
    let bytes = name.as_bytes();
    let dot: bool = bytes.len() == 1 && bytes[0] == DOT;
    let dots: bool = bytes.len() == 2 && bytes[0] == DOT && bytes[1] == DOT;
    proof {
        if dot {
            assert(bytes@ =~= seq![DOT]);
        }
        if dots {
            assert(bytes@ =~= seq![DOT, DOT]);
        }
    }
    if bytes.len() == 0 || dot || dots || find_byte(bytes, SEPARATOR, 0).is_some() {
        return Err(before_commit("Anchored path must be one plain component.".to_owned()));
    }
    if find_byte(bytes, 0u8, 0).is_some() {
        return Err(before_commit("Anchored path contained a NUL byte.".to_owned()));
    }
    Ok(())
}

/// The private name of a document that is being written.
pub open spec fn temporary_name_of(name: Seq<char>, process: u32) -> Seq<char> {
    "."@ + name + ".tmp-"@ + decimal_text(process as nat)
}

/// The private name under which the previous document is kept.
pub open spec fn backup_name_of(name: Seq<char>, process: u32) -> Seq<char> {
    "."@ + name + ".previous-"@ + decimal_text(process as nat)
}

pub fn temporary_name(name: &str, process: u32) -> (temporary: String)
    ensures
        temporary@ == temporary_name_of(name@, process),
{
    text4(".", name, ".tmp-", decimal(process as u64).as_str())
}

pub fn backup_name(name: &str, process: u32) -> (backup: String)
    ensures
        backup@ == backup_name_of(name@, process),
{
    text4(".", name, ".previous-", decimal(process as u64).as_str())
}

/// A document and its two private files have three different names.
pub proof fn law_private_names_differ(name: Seq<char>, process: u32)
    ensures
        temporary_name_of(name, process) != backup_name_of(name, process),
        temporary_name_of(name, process) != name,
        backup_name_of(name, process) != name,
{
    reveal_strlit(".");
    reveal_strlit(".tmp-");
    reveal_strlit(".previous-");
    let temporary = temporary_name_of(name, process);
    let backup = backup_name_of(name, process);
    let place = name.len() as int + 2;
    assert(temporary[place] == 't');
    assert(backup[place] == 'p');
    assert(temporary.len() > name.len());
    assert(backup.len() > name.len());
}

/// Where a publication is.
#[derive(Clone, Copy, Debug, PartialEq, Eq, Structural)]
pub enum PublishStep {
    Beginning,
    Serializing,
    Creating,
    Writing,
    RemovingStale,
    Linking,
    SyncingLink,
    Blocking,
    CheckingPending,
    Renaming,
    SyncingRename,
    Restoring,
    SyncingRestore,
    RemovingBackup,
    SyncingCleanup,
    /// It failed before its commit, and its temporary file is being removed.
    CleaningTemporary,
    /// It failed before its commit, and the kept previous document is being removed.
    CleaningBackup,
    Over,
}

/// The next operation of a publication.
#[derive(Debug)]
pub enum PublishAction {
    /// See whether the run was interrupted.
    CheckInterrupt,
    Serialize,
    CreateTemporary,
    WriteTemporary,
    /// Remove the private name of the previous document.
    RemoveBackup,
    /// Keep the previous document under its private name.
    LinkPrevious,
    SyncDirectory,
    BlockSignals,
    /// See whether the run was interrupted, or an interrupt waits.
    CheckPending,
    /// Rename the temporary file into place.
    RenameTemporary,
    /// Rename the kept previous document into place.
    RestorePrevious,
    /// Remove the document.
    RemoveDocument,
    RemoveTemporary,
    Finish(Result<(), AnchoredError>),
}

/// The next operation of a publication, as sequences.
pub enum PublishActionView {
    CheckInterrupt,
    Serialize,
    CreateTemporary,
    WriteTemporary,
    RemoveBackup,
    LinkPrevious,
    SyncDirectory,
    BlockSignals,
    CheckPending,
    RenameTemporary,
    RestorePrevious,
    RemoveDocument,
    RemoveTemporary,
    Finish(Result<(), AnchoredErrorView>),
}

impl View for PublishAction {
    type V = PublishActionView;

    open spec fn view(&self) -> PublishActionView {
        match *self {
            PublishAction::CheckInterrupt => PublishActionView::CheckInterrupt,
            PublishAction::Serialize => PublishActionView::Serialize,
            PublishAction::CreateTemporary => PublishActionView::CreateTemporary,
            PublishAction::WriteTemporary => PublishActionView::WriteTemporary,
            PublishAction::RemoveBackup => PublishActionView::RemoveBackup,
            PublishAction::LinkPrevious => PublishActionView::LinkPrevious,
            PublishAction::SyncDirectory => PublishActionView::SyncDirectory,
            PublishAction::BlockSignals => PublishActionView::BlockSignals,
            PublishAction::CheckPending => PublishActionView::CheckPending,
            PublishAction::RenameTemporary => PublishActionView::RenameTemporary,
            PublishAction::RestorePrevious => PublishActionView::RestorePrevious,
            PublishAction::RemoveDocument => PublishActionView::RemoveDocument,
            PublishAction::RemoveTemporary => PublishActionView::RemoveTemporary,
            PublishAction::Finish(Ok(_)) => PublishActionView::Finish(Ok(())),
            PublishAction::Finish(Err(error)) => PublishActionView::Finish(Err(error@)),
        }
    }
}

/// What an operation came to.
#[derive(Debug)]
pub enum PublishEvent {
    /// Whether the run was interrupted.
    Checked(bool),
    Did(Result<(), String>),
    /// Whether there was a previous document to keep.
    Linked(Result<bool, String>),
}

/// A publication in progress.
#[derive(Debug)]
pub struct Publication {
    /// Whether an interrupt of the run stops it.
    pub watched: bool,
    /// Whether the previous document is kept until the new one is durable.
    pub preserve_previous: bool,
    pub step: PublishStep,
    /// Whether a previous document was kept.
    pub linked: bool,
    /// Why it failed.
    pub error: String,
    /// Whether it failed by an interrupt.
    pub interrupted: bool,
}

/// A publication, as sequences.
#[verifier::ext_equal]
pub struct PublicationView {
    pub watched: bool,
    pub preserve_previous: bool,
    pub step: PublishStep,
    pub linked: bool,
    pub error: Seq<char>,
    pub interrupted: bool,
}

impl View for Publication {
    type V = PublicationView;

    open spec fn view(&self) -> PublicationView {
        PublicationView {
            watched: self.watched,
            preserve_previous: self.preserve_previous,
            step: self.step,
            linked: self.linked,
            error: self.error@,
            interrupted: self.interrupted,
        }
    }
}

/// The operation that a step waits for.
pub open spec fn awaited_action(step: PublishStep) -> PublishActionView {
    match step {
        PublishStep::Beginning => PublishActionView::CheckInterrupt,
        PublishStep::Serializing => PublishActionView::Serialize,
        PublishStep::Creating => PublishActionView::CreateTemporary,
        PublishStep::Writing => PublishActionView::WriteTemporary,
        PublishStep::RemovingStale => PublishActionView::RemoveBackup,
        PublishStep::Linking => PublishActionView::LinkPrevious,
        PublishStep::SyncingLink => PublishActionView::SyncDirectory,
        PublishStep::Blocking => PublishActionView::BlockSignals,
        PublishStep::CheckingPending => PublishActionView::CheckPending,
        PublishStep::Renaming => PublishActionView::RenameTemporary,
        PublishStep::SyncingRename => PublishActionView::SyncDirectory,
        PublishStep::Restoring => PublishActionView::RestorePrevious,
        PublishStep::SyncingRestore => PublishActionView::SyncDirectory,
        PublishStep::RemovingBackup => PublishActionView::RemoveBackup,
        PublishStep::SyncingCleanup => PublishActionView::SyncDirectory,
        PublishStep::CleaningTemporary => PublishActionView::RemoveTemporary,
        PublishStep::CleaningBackup => PublishActionView::RemoveBackup,
        PublishStep::Over => PublishActionView::Finish(Ok(())),
    }
}

/// The operation that a publication waits for: it restores what it can.
pub open spec fn due_action(publication: PublicationView) -> PublishActionView {
    if publication.step == PublishStep::Restoring && !publication.linked {
        PublishActionView::RemoveDocument
    } else {
        awaited_action(publication.step)
    }
}

/// Whether an event is one that a step waits for.
pub open spec fn is_outcome(step: PublishStep, event: PublishEvent) -> bool {
    match step {
        PublishStep::Beginning | PublishStep::CheckingPending => event is Checked,
        PublishStep::Linking => event is Linked,
        PublishStep::Over => false,
        _ => event is Did,
    }
}

/// The publication at another step.
pub open spec fn at_step(publication: PublicationView, step: PublishStep) -> PublicationView {
    PublicationView { step, ..publication }
}

/// A publication that failed before its commit, and cleans up.
pub open spec fn cleaning(publication: PublicationView, error: Seq<char>) -> PublicationView {
    PublicationView { step: PublishStep::CleaningTemporary, error, ..publication }
}

/// The first step after the previous document was taken care of.
pub open spec fn guarded(publication: PublicationView) -> PublicationView {
    if publication.watched {
        at_step(publication, PublishStep::Blocking)
    } else {
        at_step(publication, PublishStep::Renaming)
    }
}

/// How a publication ends that failed before its commit.
pub open spec fn failed_outcome(publication: PublicationView) -> Result<(), AnchoredErrorView> {
    if publication.interrupted {
        Err(interruption())
    } else {
        Err(uncommitted(publication.error))
    }
}

/// How a publication ends that could not be undone.
pub open spec fn committed_outcome(publication: PublicationView) -> Result<(), AnchoredErrorView> {
    Err(
        AnchoredErrorView {
            message: "JSON rename committed, its directory could not be synced, and the previous state could not be restored durably: "@
                + publication.error,
            committed: true,
            interrupted: false,
        },
    )
}

/// A publication that goes on, with the operation that it waits for.
pub open spec fn goes_on(publication: PublicationView) -> (PublicationView, PublishActionView) {
    (publication, due_action(publication))
}

/// A publication that ends.
pub open spec fn ends(publication: PublicationView, outcome: Result<(), AnchoredErrorView>) -> (
    PublicationView,
    PublishActionView,
) {
    (at_step(publication, PublishStep::Over), PublishActionView::Finish(outcome))
}

/// A publication after one operation that can only succeed or fail.
pub open spec fn after_operation(publication: PublicationView, done: Result<(), String>) -> (
    PublicationView,
    PublishActionView,
) {
    match publication.step {
        PublishStep::Serializing => match done {
            Ok(_) => goes_on(at_step(publication, PublishStep::Creating)),
            Err(error) => ends(
                publication,
                Err(uncommitted("Could not serialize JSON: "@ + error@)),
            ),
        },
        PublishStep::Creating => match done {
            Ok(_) => goes_on(at_step(publication, PublishStep::Writing)),
            Err(error) => ends(publication, Err(uncommitted(error@))),
        },
        PublishStep::Writing => match done {
            Ok(_) => if publication.preserve_previous {
                goes_on(at_step(publication, PublishStep::RemovingStale))
            } else {
                goes_on(guarded(publication))
            },
            Err(error) => goes_on(
                cleaning(
                    publication,
                    "Could not write and sync temporary JSON: "@ + error@,
                ),
            ),
        },
        PublishStep::RemovingStale => goes_on(at_step(publication, PublishStep::Linking)),
        PublishStep::SyncingLink => match done {
            Ok(_) => goes_on(guarded(publication)),
            Err(error) => goes_on(
                cleaning(
                    publication,
                    "Could not make the previous JSON recovery link durable: "@ + error@,
                ),
            ),
        },
        PublishStep::Blocking => match done {
            Ok(_) => goes_on(at_step(publication, PublishStep::CheckingPending)),
            Err(error) => goes_on(cleaning(publication, error@)),
        },
        PublishStep::Renaming => match done {
            Ok(_) => goes_on(at_step(publication, PublishStep::SyncingRename)),
            Err(error) => goes_on(cleaning(publication, error@)),
        },
        PublishStep::SyncingRename => match done {
            Ok(_) => if publication.linked {
                goes_on(at_step(publication, PublishStep::RemovingBackup))
            } else {
                ends(publication, Ok(()))
            },
            Err(error) => goes_on(
                PublicationView { step: PublishStep::Restoring, error: error@, ..publication },
            ),
        },
        PublishStep::Restoring => match done {
            Ok(_) => goes_on(at_step(publication, PublishStep::SyncingRestore)),
            Err(_) => ends(publication, committed_outcome(publication)),
        },
        PublishStep::SyncingRestore => match done {
            Ok(_) => ends(
                publication,
                Err(
                    uncommitted(
                        "JSON publication could not be made durable and the previous state was restored: "@
                            + publication.error,
                    ),
                ),
            ),
            Err(_) => ends(publication, committed_outcome(publication)),
        },
        PublishStep::RemovingBackup => match done {
            Ok(_) => goes_on(at_step(publication, PublishStep::SyncingCleanup)),
            Err(_) => ends(publication, Ok(())),
        },
        PublishStep::SyncingCleanup => ends(publication, Ok(())),
        PublishStep::CleaningTemporary => if publication.linked {
            goes_on(at_step(publication, PublishStep::CleaningBackup))
        } else {
            ends(publication, failed_outcome(publication))
        },
        _ => ends(publication, failed_outcome(publication)),
    }
}

/// A publication after an event.
pub open spec fn published(publication: PublicationView, event: PublishEvent) -> (
    PublicationView,
    PublishActionView,
) {
    match event {
        PublishEvent::Checked(interrupted) => if publication.step == PublishStep::Beginning {
            if interrupted {
                ends(publication, Err(interruption()))
            } else {
                goes_on(at_step(publication, PublishStep::Serializing))
            }
        } else if interrupted {
            goes_on(
                PublicationView {
                    step: PublishStep::CleaningTemporary,
                    interrupted: true,
                    ..publication
                },
            )
        } else {
            goes_on(at_step(publication, PublishStep::Renaming))
        },
        PublishEvent::Linked(linked) => match linked {
            Ok(found) => if found {
                goes_on(
                    PublicationView {
                        step: PublishStep::SyncingLink,
                        linked: true,
                        ..publication
                    },
                )
            } else {
                goes_on(guarded(publication))
            },
            Err(error) => goes_on(cleaning(publication, error@)),
        },
        PublishEvent::Did(done) => after_operation(publication, done),
    }
}

/// A publication at its start.
pub open spec fn publication_start(watched: bool, preserve_previous: bool) -> PublicationView {
    PublicationView {
        watched,
        preserve_previous,
        step: if watched {
            PublishStep::Beginning
        } else {
            PublishStep::Serializing
        },
        linked: false,
        error: Seq::empty(),
        interrupted: false,
    }
}

impl Publication {
    /// Starts a publication: an interrupt of the run stops it where it is watched.
    pub fn start(watched: bool, preserve_previous: bool) -> (started: (Publication, PublishAction))
        ensures
            started.0@ == publication_start(watched, preserve_previous),
            started.1@ == due_action(started.0@),
    {
        let error = String::new();
        assert(error@ =~= Seq::<char>::empty());
        if watched {
            (
                Publication {
                    watched,
                    preserve_previous,
                    step: PublishStep::Beginning,
                    linked: false,
                    error,
                    interrupted: false,
                },
                PublishAction::CheckInterrupt,
            )
        } else {
            (
                Publication {
                    watched,
                    preserve_previous,
                    step: PublishStep::Serializing,
                    linked: false,
                    error,
                    interrupted: false,
                },
                PublishAction::Serialize,
            )
        }
    }

    fn guard(&mut self) -> (action: PublishAction)
        ensures
            (final(self)@, action@) == goes_on(guarded(old(self)@)),
    {
        if self.watched {
            self.step = PublishStep::Blocking;
            PublishAction::BlockSignals
        } else {
            self.step = PublishStep::Renaming;
            PublishAction::RenameTemporary
        }
    }

    fn clean(&mut self, error: String) -> (action: PublishAction)
        ensures
            (final(self)@, action@) == goes_on(cleaning(old(self)@, error@)),
    {
        self.error = error;
        self.step = PublishStep::CleaningTemporary;
        PublishAction::RemoveTemporary
    }

    fn end(&mut self, outcome: Result<(), AnchoredError>) -> (action: PublishAction)
        ensures
            (final(self)@, action@) == ends(
                old(self)@,
                match outcome {
                    Ok(_) => Ok(()),
                    Err(error) => Err(error@),
                },
            ),
    {
        self.step = PublishStep::Over;
        PublishAction::Finish(outcome)
    }

    fn end_failed(&mut self) -> (action: PublishAction)
        ensures
            (final(self)@, action@) == ends(old(self)@, failed_outcome(old(self)@)),
    {
        if self.interrupted {
            self.end(Err(interrupted_before_commit()))
        } else {
            let error = self.error.clone();
            self.end(Err(before_commit(error)))
        }
    }

    fn end_committed(&mut self) -> (action: PublishAction)
        ensures
            (final(self)@, action@) == ends(old(self)@, committed_outcome(old(self)@)),
    {
        let message = text2(
            "JSON rename committed, its directory could not be synced, and the previous state could not be restored durably: ",
            self.error.as_str(),
        );
        self.end(Err(AnchoredError { message, committed: true, interrupted: false }))
    }

    fn take_operation(&mut self, done: Result<(), String>) -> (action: PublishAction)
        requires
            is_outcome(old(self).step, PublishEvent::Did(done)),
        ensures
            (final(self)@, action@) == after_operation(old(self)@, done),
    {
        match self.step {
            PublishStep::Serializing => match done {
                Ok(_) => {
                    self.step = PublishStep::Creating;
                    PublishAction::CreateTemporary
                },
                Err(error) => {
                    let message = text2("Could not serialize JSON: ", error.as_str());
                    self.end(Err(before_commit(message)))
                },
            },
            PublishStep::Creating => match done {
                Ok(_) => {
                    self.step = PublishStep::Writing;
                    PublishAction::WriteTemporary
                },
                Err(error) => self.end(Err(before_commit(error))),
            },
            PublishStep::Writing => match done {
                Ok(_) => {
                    if self.preserve_previous {
                        self.step = PublishStep::RemovingStale;
                        PublishAction::RemoveBackup
                    } else {
                        self.guard()
                    }
                },
                Err(error) => {
                    let message = text2(
                        "Could not write and sync temporary JSON: ",
                        error.as_str(),
                    );
                    self.clean(message)
                },
            },
            PublishStep::RemovingStale => {
                self.step = PublishStep::Linking;
                PublishAction::LinkPrevious
            },
            PublishStep::SyncingLink => match done {
                Ok(_) => self.guard(),
                Err(error) => {
                    let message = text2(
                        "Could not make the previous JSON recovery link durable: ",
                        error.as_str(),
                    );
                    self.clean(message)
                },
            },
            PublishStep::Blocking => match done {
                Ok(_) => {
                    self.step = PublishStep::CheckingPending;
                    PublishAction::CheckPending
                },
                Err(error) => self.clean(error),
            },
            PublishStep::Renaming => match done {
                Ok(_) => {
                    self.step = PublishStep::SyncingRename;
                    PublishAction::SyncDirectory
                },
                Err(error) => self.clean(error),
            },
            PublishStep::SyncingRename => match done {
                Ok(_) => {
                    if self.linked {
                        self.step = PublishStep::RemovingBackup;
                        PublishAction::RemoveBackup
                    } else {
                        self.end(Ok(()))
                    }
                },
                Err(error) => {
                    self.error = error;
                    self.step = PublishStep::Restoring;
                    if self.linked {
                        PublishAction::RestorePrevious
                    } else {
                        PublishAction::RemoveDocument
                    }
                },
            },
            PublishStep::Restoring => match done {
                Ok(_) => {
                    self.step = PublishStep::SyncingRestore;
                    PublishAction::SyncDirectory
                },
                Err(_) => self.end_committed(),
            },
            PublishStep::SyncingRestore => match done {
                Ok(_) => {
                    let message = text2(
                        "JSON publication could not be made durable and the previous state was restored: ",
                        self.error.as_str(),
                    );
                    self.end(Err(before_commit(message)))
                },
                Err(_) => self.end_committed(),
            },
            PublishStep::RemovingBackup => match done {
                Ok(_) => {
                    self.step = PublishStep::SyncingCleanup;
                    PublishAction::SyncDirectory
                },
                Err(_) => self.end(Ok(())),
            },
            PublishStep::SyncingCleanup => self.end(Ok(())),
            PublishStep::CleaningTemporary => {
                if self.linked {
                    self.step = PublishStep::CleaningBackup;
                    PublishAction::RemoveBackup
                } else {
                    self.end_failed()
                }
            },
            _ => self.end_failed(),
        }
    }

    /// Takes what the last operation came to, and says what is to be done next.
    pub fn write_json_atomic(&mut self, event: PublishEvent) -> (action: PublishAction)
        requires
            is_outcome(old(self).step, event),
        ensures
            (final(self)@, action@) == published(old(self)@, event),
    {
        match event {
            PublishEvent::Checked(interrupted) => {
                if self.step == PublishStep::Beginning {
                    if interrupted {
                        return self.end(Err(interrupted_before_commit()));
                    }
                    self.step = PublishStep::Serializing;
                    return PublishAction::Serialize;
                }
                if interrupted {
                    self.interrupted = true;
                    self.step = PublishStep::CleaningTemporary;
                    return PublishAction::RemoveTemporary;
                }
                self.step = PublishStep::Renaming;
                PublishAction::RenameTemporary
            },
            PublishEvent::Linked(linked) => match linked {
                Ok(found) => {
                    if found {
                        self.linked = true;
                        self.step = PublishStep::SyncingLink;
                        PublishAction::SyncDirectory
                    } else {
                        self.guard()
                    }
                },
                Err(error) => self.clean(error),
            },
            PublishEvent::Did(done) => self.take_operation(done),
        }
    }
}

/// What lies under the three names of a publication.
pub struct Files {
    pub document: Option<Seq<u8>>,
    pub temporary: Option<Seq<u8>>,
    pub backup: Option<Seq<u8>>,
}

/// Whether an operation that came to `event` can lead from `before` to `after`, where `bytes` are
/// the contents of the new document.
pub open spec fn can_lead(
    before: Files,
    action: PublishActionView,
    event: PublishEvent,
    bytes: Seq<u8>,
    after: Files,
) -> bool {
    let done = event is Did && event->Did_0 is Ok;
    match action {
        PublishActionView::CreateTemporary => if done {
            before.temporary is None && after == (Files {
                temporary: Some(Seq::empty()),
                ..before
            })
        } else {
            after == before
        },
        PublishActionView::WriteTemporary => if done {
            after == (Files { temporary: Some(bytes), ..before })
        } else {
            after == (Files { temporary: after.temporary, ..before })
        },
        PublishActionView::RemoveTemporary => after == if done {
            Files { temporary: None, ..before }
        } else {
            before
        },
        PublishActionView::RemoveBackup => after == if done {
            Files { backup: None, ..before }
        } else {
            before
        },
        PublishActionView::RemoveDocument => after == if done {
            Files { document: None, ..before }
        } else {
            before
        },
        PublishActionView::LinkPrevious => match event {
            PublishEvent::Linked(Ok(linked)) => if linked {
                before.document is Some && after == (Files { backup: before.document, ..before })
            } else {
                before.document is None && after == before
            },
            _ => after == before,
        },
        PublishActionView::RenameTemporary => after == if done {
            Files { document: before.temporary, temporary: None, ..before }
        } else {
            before
        },
        PublishActionView::RestorePrevious => after == if done {
            Files { document: before.backup, backup: None, ..before }
        } else {
            before
        },
        _ => after == before,
    }
}

/// What holds of the files while a publication of `bytes` over `initial` is at its step.
pub open spec fn is_on_the_way(
    publication: PublicationView,
    files: Files,
    initial: Option<Seq<u8>>,
    bytes: Seq<u8>,
) -> bool {
    let step = publication.step;
    let linked = publication.linked;
    let kept = linked ==> files.backup == initial && initial is Some;
    let settled = publication.preserve_previous && !linked ==> initial is None;
    match step {
        PublishStep::Beginning | PublishStep::Serializing | PublishStep::Creating => files.document
            == initial && !linked,
        PublishStep::Writing => files.document == initial && !linked,
        PublishStep::RemovingStale | PublishStep::Linking => files.document == initial && !linked
            && files.temporary == Some(bytes),
        PublishStep::SyncingLink => files.document == initial && linked && kept && files.temporary
            == Some(bytes),
        PublishStep::Blocking | PublishStep::CheckingPending | PublishStep::Renaming => {
            files.document == initial && kept && settled && files.temporary == Some(bytes)
        },
        PublishStep::SyncingRename | PublishStep::Restoring => files.document == Some(bytes) && kept
            && settled,
        PublishStep::SyncingRestore => files.document == if linked {
            initial
        } else {
            None
        } && settled,
        PublishStep::RemovingBackup | PublishStep::SyncingCleanup => files.document == Some(bytes),
        PublishStep::CleaningTemporary | PublishStep::CleaningBackup => files.document == initial,
        PublishStep::Over => true,
    }
}

/// What an outcome promises of the document.
pub open spec fn keeps_its_promise(
    publication: PublicationView,
    outcome: Result<(), AnchoredErrorView>,
    files: Files,
    initial: Option<Seq<u8>>,
    bytes: Seq<u8>,
) -> bool {
    match outcome {
        Ok(_) => files.document == Some(bytes),
        Err(error) => !error.committed && (publication.preserve_previous || initial is None)
            ==> files.document == initial,
    }
}

proof fn lemma_publication_step(
    publication: PublicationView,
    files: Files,
    event: PublishEvent,
    after: Files,
    initial: Option<Seq<u8>>,
    bytes: Seq<u8>,
)
    requires
        is_outcome(publication.step, event),
        is_on_the_way(publication, files, initial, bytes),
        can_lead(files, due_action(publication), event, bytes, after),
    ensures
        is_on_the_way(published(publication, event).0, after, initial, bytes),
        published(publication, event).1 matches PublishActionView::Finish(outcome)
            ==> keeps_its_promise(publication, outcome, after, initial, bytes),
        published(publication, event).0.preserve_previous == publication.preserve_previous,
        published(publication, event).1 is Finish || published(publication, event).1 == due_action(
            published(publication, event).0,
        ),
{
}

/// Whether `events` take a publication from `publication` and `files[0]` through `files`.
pub open spec fn is_publication_run(
    publication: PublicationView,
    files: Seq<Files>,
    events: Seq<PublishEvent>,
    bytes: Seq<u8>,
) -> bool
    decreases events.len(),
{
    &&& files.len() == events.len() + 1
    &&& events.len() > 0 ==> {
        &&& is_outcome(publication.step, events[0])
        &&& can_lead(files[0], due_action(publication), events[0], bytes, files[1])
        &&& is_publication_run(
            published(publication, events[0]).0,
            files.drop_first(),
            events.drop_first(),
            bytes,
        )
    }
}

/// The operation that follows `events`.
pub open spec fn action_after(publication: PublicationView, events: Seq<PublishEvent>) -> PublishActionView
    decreases events.len(),
{
    if events.len() == 0 {
        due_action(publication)
    } else if events.len() == 1 {
        published(publication, events[0]).1
    } else {
        action_after(published(publication, events[0]).0, events.drop_first())
    }
}

/// A publication that succeeds leaves the new document; one that fails without being committed
/// leaves the document as it was, where the previous one is kept or there was none. This holds of
/// every run, whatever the operations come to.
pub proof fn law_publications_are_atomic(
    watched: bool,
    preserve_previous: bool,
    files: Seq<Files>,
    events: Seq<PublishEvent>,
    bytes: Seq<u8>,
)
    requires
        events.len() > 0,
        is_publication_run(publication_start(watched, preserve_previous), files, events, bytes),
    ensures
        action_after(publication_start(watched, preserve_previous), events) matches
            PublishActionView::Finish(outcome) ==> match outcome {
            Ok(_) => files.last().document == Some(bytes),
            Err(error) => !error.committed && (preserve_previous || files[0].document is None)
                ==> files.last().document == files[0].document,
        },
{
    lemma_publication_run(
        publication_start(watched, preserve_previous),
        files,
        events,
        files[0].document,
        bytes,
    );
}

proof fn lemma_publication_run(
    publication: PublicationView,
    files: Seq<Files>,
    events: Seq<PublishEvent>,
    initial: Option<Seq<u8>>,
    bytes: Seq<u8>,
)
    requires
        events.len() > 0,
        is_publication_run(publication, files, events, bytes),
        is_on_the_way(publication, files[0], initial, bytes),
    ensures
        action_after(publication, events) matches PublishActionView::Finish(outcome)
            ==> keeps_its_promise(publication, outcome, files.last(), initial, bytes),
    decreases events.len(),
{
    let next = published(publication, events[0]).0;
    lemma_publication_step(publication, files[0], events[0], files[1], initial, bytes);
    if events.len() == 1 {
        assert(files.last() == files[1]);
    } else {
        assert(files.drop_first()[0] == files[1]);
        assert(files.drop_first().last() == files.last());
        lemma_publication_run(next, files.drop_first(), events.drop_first(), initial, bytes);
    }
}

/// Where the reservation of space is.
#[derive(Clone, Copy, Debug, PartialEq, Eq, Structural)]
pub enum ReserveStep {
    Creating,
    Allocating,
    SyncingFile,
    SyncingDirectory,
    Removing,
    RemovingDurably,
    SyncingRemoval,
    Over,
}

/// The next operation of a reservation.
#[derive(Debug)]
pub enum ReserveAction {
    Create,
    Allocate,
    SyncFile,
    SyncDirectory,
    Remove,
    Finish(Result<(), AnchoredError>),
}

/// The next operation of a reservation, as sequences.
pub enum ReserveActionView {
    Create,
    Allocate,
    SyncFile,
    SyncDirectory,
    Remove,
    Finish(Result<(), AnchoredErrorView>),
}

impl View for ReserveAction {
    type V = ReserveActionView;

    open spec fn view(&self) -> ReserveActionView {
        match *self {
            ReserveAction::Create => ReserveActionView::Create,
            ReserveAction::Allocate => ReserveActionView::Allocate,
            ReserveAction::SyncFile => ReserveActionView::SyncFile,
            ReserveAction::SyncDirectory => ReserveActionView::SyncDirectory,
            ReserveAction::Remove => ReserveActionView::Remove,
            ReserveAction::Finish(Ok(_)) => ReserveActionView::Finish(Ok(())),
            ReserveAction::Finish(Err(error)) => ReserveActionView::Finish(Err(error@)),
        }
    }
}

/// A reservation of space in progress.
#[derive(Debug)]
pub struct Reservation {
    pub step: ReserveStep,
    pub error: String,
}

/// A reservation after an operation: where it is, why it failed, and what is to be done next.
pub open spec fn reserved(step: ReserveStep, error: Seq<char>, done: Result<(), String>) -> (
    ReserveStep,
    Seq<char>,
    ReserveActionView,
) {
    match step {
        ReserveStep::Creating => match done {
            Ok(_) => (ReserveStep::Allocating, error, ReserveActionView::Allocate),
            Err(found) => (
                ReserveStep::Over,
                error,
                ReserveActionView::Finish(Err(uncommitted(found@))),
            ),
        },
        ReserveStep::Allocating => match done {
            Ok(_) => (ReserveStep::SyncingFile, error, ReserveActionView::SyncFile),
            Err(found) => (
                ReserveStep::Removing,
                "Could not reserve filesystem space: "@ + found@,
                ReserveActionView::Remove,
            ),
        },
        ReserveStep::SyncingFile => match done {
            Ok(_) => (ReserveStep::SyncingDirectory, error, ReserveActionView::SyncDirectory),
            Err(found) => (
                ReserveStep::Removing,
                "Could not sync reserved filesystem space: "@ + found@,
                ReserveActionView::Remove,
            ),
        },
        ReserveStep::SyncingDirectory => match done {
            Ok(_) => (ReserveStep::Over, error, ReserveActionView::Finish(Ok(()))),
            Err(found) => (ReserveStep::RemovingDurably, found@, ReserveActionView::Remove),
        },
        ReserveStep::RemovingDurably => (
            ReserveStep::SyncingRemoval,
            error,
            ReserveActionView::SyncDirectory,
        ),
        _ => (ReserveStep::Over, error, ReserveActionView::Finish(Err(uncommitted(error)))),
    }
}

impl Reservation {
    /// Starts the reservation of `bytes` bytes.
    pub fn start(bytes: u64) -> (started: (Reservation, ReserveAction))
        ensures
            bytes <= i64::MAX ==> started.0.step == ReserveStep::Creating && started.1@
                == ReserveActionView::Create,
            bytes > i64::MAX ==> started.0.step == ReserveStep::Over && started.1@
                == ReserveActionView::Finish(
                Err(uncommitted("Reserved file length exceeded Linux off_t."@)),
            ),
            started.0.error@.len() == 0,
    {
        let error = String::new();
        if bytes > 9_223_372_036_854_775_807 {
            return (
                Reservation { step: ReserveStep::Over, error },
                ReserveAction::Finish(
                    Err(
                        before_commit("Reserved file length exceeded Linux off_t.".to_owned()),
                    ),
                ),
            );
        }
        (Reservation { step: ReserveStep::Creating, error }, ReserveAction::Create)
    }

    /// Takes what the last operation came to, and says what is to be done next.
    pub fn reserve_space(&mut self, done: Result<(), String>) -> (action: ReserveAction)
        ensures
            (final(self).step, final(self).error@, action@) == reserved(
                old(self).step,
                old(self).error@,
                done,
            ),
    {
        match self.step {
            ReserveStep::Creating => match done {
                Ok(_) => {
                    self.step = ReserveStep::Allocating;
                    ReserveAction::Allocate
                },
                Err(found) => {
                    self.step = ReserveStep::Over;
                    ReserveAction::Finish(Err(before_commit(found)))
                },
            },
            ReserveStep::Allocating => match done {
                Ok(_) => {
                    self.step = ReserveStep::SyncingFile;
                    ReserveAction::SyncFile
                },
                Err(found) => {
                    self.error = text2("Could not reserve filesystem space: ", found.as_str());
                    self.step = ReserveStep::Removing;
                    ReserveAction::Remove
                },
            },
            ReserveStep::SyncingFile => match done {
                Ok(_) => {
                    self.step = ReserveStep::SyncingDirectory;
                    ReserveAction::SyncDirectory
                },
                Err(found) => {
                    self.error = text2(
                        "Could not sync reserved filesystem space: ",
                        found.as_str(),
                    );
                    self.step = ReserveStep::Removing;
                    ReserveAction::Remove
                },
            },
            ReserveStep::SyncingDirectory => match done {
                Ok(_) => {
                    self.step = ReserveStep::Over;
                    ReserveAction::Finish(Ok(()))
                },
                Err(found) => {
                    self.error = found;
                    self.step = ReserveStep::RemovingDurably;
                    ReserveAction::Remove
                },
            },
            ReserveStep::RemovingDurably => {
                self.step = ReserveStep::SyncingRemoval;
                ReserveAction::SyncDirectory
            },
            _ => {
                self.step = ReserveStep::Over;
                ReserveAction::Finish(Err(before_commit(self.error.clone())))
            },
        }
    }
}

/// Space is only reserved once it was created, allocated and synced; every failure after its
/// creation removes the file.
pub proof fn law_failed_reservations_are_removed(
    step: ReserveStep,
    error: Seq<char>,
    done: Result<(), String>,
)
    ensures
        reserved(step, error, done).2 == ReserveActionView::Finish(Ok(())) ==> step
            == ReserveStep::SyncingDirectory && done is Ok,
        done is Err && (step == ReserveStep::Allocating || step == ReserveStep::SyncingFile || step
            == ReserveStep::SyncingDirectory) ==> reserved(step, error, done).2 is Remove,
{
}

/// What replacing a document by another file came to.
pub open spec fn replacement(
    renamed: Result<(), String>,
    synced: Result<(), String>,
) -> Result<(), AnchoredErrorView> {
    match renamed {
        Err(message) => Err(uncommitted(message@)),
        Ok(_) => match synced {
            Ok(_) => Ok(()),
            Err(error) => Err(
                AnchoredErrorView {
                    message: "Anchored rename committed, but its directory could not be synced: "@
                        + error@,
                    committed: true,
                    interrupted: false,
                },
            ),
        },
    }
}

/// Decides what replacing a document by another file came to.
pub fn replace_and_sync(renamed: Result<(), String>, synced: Result<(), String>) -> (outcome: Result<
    (),
    AnchoredError,
>)
    ensures
        match outcome {
            Ok(_) => replacement(renamed, synced) == Ok::<(), AnchoredErrorView>(()),
            Err(error) => replacement(renamed, synced) == Err::<(), AnchoredErrorView>(error@),
        },
{
    match renamed {
        Err(message) => Err(before_commit(message)),
        Ok(_) => match synced {
            Ok(_) => Ok(()),
            Err(error) => Err(
                AnchoredError {
                    message: text2(
                        "Anchored rename committed, but its directory could not be synced: ",
                        error.as_str(),
                    ),
                    committed: true,
                    interrupted: false,
                },
            ),
        },
    }
}

/// A publication serializes the document, writes it under a private name, keeps the previous one
/// durably where it is to be kept, and only then renames and syncs; where it is watched, signals
/// are blocked and an interrupt is looked for right before the rename.
pub proof fn law_publications_write_guard_rename_and_sync(publication: PublicationView)
    ensures
        ({
            let quiet = published(publication, PublishEvent::Checked(false)).1;
            let done = published(publication, PublishEvent::Did(Ok(()))).1;
            let found = published(publication, PublishEvent::Linked(Ok(true))).1;
            let absent = published(publication, PublishEvent::Linked(Ok(false))).1;
            let guards = |action: PublishActionView|
                if publication.watched {
                    action is BlockSignals
                } else {
                    action is RenameTemporary
                };
            &&& publication.step == PublishStep::Beginning ==> quiet is Serialize
            &&& publication.step == PublishStep::Serializing ==> done is CreateTemporary
            &&& publication.step == PublishStep::Creating ==> done is WriteTemporary
            &&& publication.step == PublishStep::Writing && publication.preserve_previous
                ==> done is RemoveBackup
            &&& publication.step == PublishStep::Writing && !publication.preserve_previous
                ==> guards(done)
            &&& publication.step == PublishStep::RemovingStale ==> done is LinkPrevious
            &&& publication.step == PublishStep::Linking ==> found is SyncDirectory && guards(
                absent,
            )
            &&& publication.step == PublishStep::SyncingLink ==> guards(done)
            &&& publication.step == PublishStep::Blocking ==> done is CheckPending
            &&& publication.step == PublishStep::CheckingPending ==> quiet is RenameTemporary
            &&& publication.step == PublishStep::Renaming ==> done is SyncDirectory
            &&& publication.step == PublishStep::SyncingRename && publication.linked
                ==> done is RemoveBackup
            &&& publication.step == PublishStep::SyncingRename && !publication.linked ==> done
                == PublishActionView::Finish(Ok(()))
            &&& publication.step == PublishStep::RemovingBackup ==> done is SyncDirectory
            &&& publication.step == PublishStep::SyncingCleanup ==> done
                == PublishActionView::Finish(Ok(()))
        }),
{
}

/// A publication that fails before its rename removes its private files; one whose rename cannot be
/// made durable puts the previous document back, or removes the new one where there was none.
pub proof fn law_failed_publications_are_undone(publication: PublicationView, error: String)
    ensures
        ({
            let stopped = published(publication, PublishEvent::Checked(true)).1;
            let failed = published(publication, PublishEvent::Did(Err(error))).1;
            let done = published(publication, PublishEvent::Did(Ok(()))).1;
            let unlinked = published(publication, PublishEvent::Linked(Err(error))).1;
            &&& publication.step == PublishStep::Beginning ==> stopped is Finish
                && stopped->Finish_0 is Err && stopped->Finish_0->Err_0.interrupted
            &&& publication.step == PublishStep::Serializing || publication.step
                == PublishStep::Creating ==> failed is Finish && failed->Finish_0 is Err
                && !failed->Finish_0->Err_0.committed
            &&& publication.step == PublishStep::Writing || publication.step
                == PublishStep::SyncingLink || publication.step == PublishStep::Blocking
                || publication.step == PublishStep::Renaming ==> failed is RemoveTemporary
            &&& publication.step == PublishStep::Linking ==> unlinked is RemoveTemporary
            &&& publication.step == PublishStep::CheckingPending ==> stopped is RemoveTemporary
            &&& publication.step == PublishStep::SyncingRename ==> if publication.linked {
                failed is RestorePrevious
            } else {
                failed is RemoveDocument
            }
            &&& publication.step == PublishStep::Restoring ==> done is SyncDirectory && failed
                is Finish && failed->Finish_0 is Err && failed->Finish_0->Err_0.committed
            &&& publication.step == PublishStep::SyncingRestore ==> done is Finish
                && done->Finish_0 is Err && !done->Finish_0->Err_0.committed && failed is Finish
                && failed->Finish_0 is Err && failed->Finish_0->Err_0.committed
            &&& publication.step == PublishStep::CleaningTemporary && publication.linked
                ==> done is RemoveBackup
            &&& publication.step == PublishStep::CleaningTemporary && !publication.linked
                ==> done is Finish && done->Finish_0 is Err
            &&& publication.step == PublishStep::CleaningBackup ==> done is Finish
                && done->Finish_0 is Err && !done->Finish_0->Err_0.committed
                && done->Finish_0->Err_0.interrupted == publication.interrupted
        }),
{
}

/// A replacement succeeds exactly where the rename did and was synced; it is committed by the
/// rename alone.
pub proof fn law_replacements_are_committed_by_their_rename(
    renamed: Result<(), String>,
    synced: Result<(), String>,
)
    ensures
        replacement(renamed, synced) is Ok <==> renamed is Ok && synced is Ok,
        replacement(renamed, synced) is Err ==> replacement(renamed, synced)->Err_0.committed
            == renamed is Ok && !replacement(renamed, synced)->Err_0.interrupted,
{
}

/// Space is reserved by creating, allocating and syncing a file, and then its directory.
pub proof fn law_reservations_allocate_and_sync(error: Seq<char>)
    ensures
        reserved(ReserveStep::Creating, error, Ok(())).2 is Allocate,
        reserved(reserved(ReserveStep::Creating, error, Ok(())).0, error, Ok(())).2 is SyncFile,
        reserved(ReserveStep::SyncingFile, error, Ok(())).2 is SyncDirectory,
        reserved(ReserveStep::SyncingDirectory, error, Ok(())).2 == ReserveActionView::Finish(
            Ok(()),
        ),
        reserved(ReserveStep::RemovingDurably, error, Ok(())).2 is SyncDirectory,
        reserved(ReserveStep::SyncingRemoval, error, Ok(())).2 is Finish,
        reserved(ReserveStep::SyncingRemoval, error, Ok(())).2->Finish_0->Err_0.message == error,
{
}

} // verus!
