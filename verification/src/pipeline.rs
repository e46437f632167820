//! The course of one upload, from the staged bytes to the registered
//! identifier.
//!
//! The library decides what is done next; whoever drives the session does
//! it (writes, reads and moves files, calls the store) and reports what
//! happened.

use vstd::prelude::*;
use crate::db::text_of;
use crate::error::UploadError;
use crate::file::FileInfo;
use crate::util::{prepend_tmp_dir, prepend_upload_dir};

verus! {

/// Where an upload stands.
#[derive(Clone, Copy, Debug, PartialEq, Eq, Structural)]
pub enum Phase {
    /// The bytes are being written to the staged file.
    Staging,
    /// The staged file is being read back for its checksum.
    Hashing,
    /// The checksum is known and the published files are being asked for it.
    Publishing,
    /// The staged file is being moved to its place among the published files.
    Moving,
    /// The content is published already and the staged file is being removed.
    Dropping,
    /// The content is published and the identifier is being registered.
    Registering,
    /// The upload has failed and the staged file is being removed.
    Failing,
}

/// What happened to an upload, as its driver reports it.
pub enum Event {
    /// The stream ended after `received` bytes were staged.
    StreamEnded { received: u64 },
    /// The stream broke off, or staging its bytes failed.
    StreamFailed,
    /// The staged file was read back: its checksum, or why it has none.
    Digested { outcome: Result<String, UploadError> },
    /// The staged file could not be read back.
    ReadFailed,
    /// The published files were asked for the checksum.
    Probed { present: bool },
    /// The staged file was moved to its place among the published files.
    Moved,
    /// The staged file could not be moved.
    MoveFailed,
    /// The removal of the staged file was tried: `removed` tells whether
    /// the file is gone. The upload goes on either way: a staged file that
    /// is left behind is never taken for content.
    Discarded { removed: bool },
    /// The store was asked to register the upload.
    Registered { outcome: Result<String, UploadError> },
}

/// What the driver of an upload does next.
pub enum Action {
    /// Read the staged file back and compute its checksum.
    Digest { staged: String },
    /// Find out whether the file `blob` is published.
    Probe { blob: String },
    /// Move the staged file to its place among the published files.
    Move { from: String, to: String },
    /// Remove the staged file.
    Discard { staged: String },
    /// Register the checksum under the original filename.
    Register { checksum: String, filename: String },
}

/// One upload on its way.
pub struct UploadSession {
    info: FileInfo,
    phase: Phase,
    checksum: Option<String>,
    failure: Option<UploadError>,
}

/// What a step of an upload leads to.
pub enum Step {
    /// The upload goes on: the driver does `action` and reports back.
    Next { session: UploadSession, action: Action },
    /// The upload is over: its identifier, or why it has none.
    Done { outcome: Result<String, UploadError> },
}

/// The text of an optional string.
pub open spec fn text_if_any(s: Option<String>) -> Option<Seq<char>> {
    match s {
        Some(s) => Some(s@),
        None => None,
    }
}

/// An [`UploadSession`] as contracts see it.
pub ghost struct SessionView {
    pub phase: Phase,
    pub uuid: Seq<char>,
    pub filename: Seq<char>,
    pub checksum: Option<Seq<char>>,
    pub failure: Option<UploadError>,
}

/// An [`Event`] as contracts see it.
pub ghost enum EventView {
    StreamEnded { received: u64 },
    StreamFailed,
    Digested { outcome: Result<Seq<char>, UploadError> },
    ReadFailed,
    Probed { present: bool },
    Moved,
    MoveFailed,
    Discarded { removed: bool },
    Registered { outcome: Result<Seq<char>, UploadError> },
}

/// An [`Action`] as contracts see it.
pub ghost enum ActionView {
    Digest { staged: Seq<char> },
    Probe { blob: Seq<char> },
    Move { from: Seq<char>, to: Seq<char> },
    Discard { staged: Seq<char> },
    Register { checksum: Seq<char>, filename: Seq<char> },
}

/// A [`Step`] as contracts see it.
pub ghost enum StepView {
    Next { session: SessionView, action: ActionView },
    Done { outcome: Result<Seq<char>, UploadError> },
}

impl View for Event {
    type V = EventView;

    open spec fn view(&self) -> EventView {
        match *self {
            Event::StreamEnded { received } => EventView::StreamEnded { received },
            Event::StreamFailed => EventView::StreamFailed,
            Event::Digested { outcome } => EventView::Digested { outcome: text_of(outcome) },
            Event::ReadFailed => EventView::ReadFailed,
            Event::Probed { present } => EventView::Probed { present },
            Event::Moved => EventView::Moved,
            Event::MoveFailed => EventView::MoveFailed,
            Event::Discarded { removed } => EventView::Discarded { removed },
            Event::Registered { outcome } => EventView::Registered { outcome: text_of(outcome) },
        }
    }
}

impl View for Action {
    type V = ActionView;

    open spec fn view(&self) -> ActionView {
        match *self {
            Action::Digest { staged } => ActionView::Digest { staged: staged@ },
            Action::Probe { blob } => ActionView::Probe { blob: blob@ },
            Action::Move { from, to } => ActionView::Move { from: from@, to: to@ },
            Action::Discard { staged } => ActionView::Discard { staged: staged@ },
            Action::Register { checksum, filename } => ActionView::Register {
                checksum: checksum@,
                filename: filename@,
            },
        }
    }
}

impl View for UploadSession {
    type V = SessionView;

    closed spec fn view(&self) -> SessionView {
        SessionView {
            phase: self.phase,
            uuid: self.info.uuid@,
            filename: self.info.original_filename@,
            checksum: text_if_any(self.checksum),
            failure: self.failure,
        }
    }
}

impl View for Step {
    type V = StepView;

    open spec fn view(&self) -> StepView {
        match *self {
            Step::Next { session, action } => StepView::Next { session: session@, action: action@ },
            Step::Done { outcome } => StepView::Done { outcome: text_of(outcome) },
        }
    }
}

impl SessionView {
    /// A session knows its checksum once the staged file has been read
    /// back, and the reason of its failure while it is failing.
    pub open spec fn well_formed(self) -> bool {
        &&& (self.phase == Phase::Publishing || self.phase == Phase::Moving || self.phase == Phase::Dropping
            || self.phase == Phase::Registering) ==> self.checksum is Some
        &&& self.phase == Phase::Failing ==> self.failure is Some
    }

    /// Where the bytes of the upload are staged.
    pub open spec fn staged(self) -> Seq<char> {
        "tmp/"@ + self.uuid
    }

    /// The session in another phase.
    pub open spec fn at(self, phase: Phase) -> SessionView {
        SessionView { phase, ..self }
    }

    /// The upload fails for `reason`: the staged file is removed first.
    pub open spec fn fail(self, reason: UploadError) -> StepView {
        StepView::Next {
            session: SessionView { phase: Phase::Failing, failure: Some(reason), ..self },
            action: ActionView::Discard { staged: self.staged() },
        }
    }

    /// The content is published: the identifier is registered next.
    pub open spec fn register(self) -> StepView {
        StepView::Next {
            session: self.at(Phase::Registering),
            action: ActionView::Register { checksum: self.checksum->0, filename: self.filename },
        }
    }
}

/// What an upload does next when `event` is reported to it.
///
/// An upload without bytes is rejected before anything is read back. The
/// content is published, by a move or because it was published before,
/// ahead of the registration. A failure, or an event that the phase does
/// not wait for, ends the upload as failed once the staged file is removed.
pub open spec fn step(s: SessionView, event: EventView) -> StepView {
    match (s.phase, event) {
        (Phase::Staging, EventView::StreamEnded { received }) => if received == 0 {
            s.fail(UploadError::EmptyUpload)
        } else {
            StepView::Next { session: s.at(Phase::Hashing), action: ActionView::Digest { staged: s.staged() } }
        },
        (Phase::Hashing, EventView::Digested { outcome: Ok(checksum) }) => StepView::Next {
            session: SessionView { phase: Phase::Publishing, checksum: Some(checksum), ..s },
            action: ActionView::Probe { blob: "uploads/"@ + checksum },
        },
        (Phase::Hashing, EventView::Digested { outcome: Err(reason) }) => s.fail(reason),
        (Phase::Publishing, EventView::Probed { present }) => if present {
            StepView::Next { session: s.at(Phase::Dropping), action: ActionView::Discard { staged: s.staged() } }
        } else {
            StepView::Next {
                session: s.at(Phase::Moving),
                action: ActionView::Move { from: s.staged(), to: "uploads/"@ + s.checksum->0 },
            }
        },
        (Phase::Moving, EventView::Moved) => s.register(),
        (Phase::Dropping, EventView::Discarded { .. }) => s.register(),
        (Phase::Registering, EventView::Registered { outcome }) => StepView::Done { outcome },
        (Phase::Registering, _) => StepView::Done { outcome: Err(UploadError::IoError) },
        (Phase::Failing, _) => StepView::Done { outcome: Err(s.failure->0) },
        _ => s.fail(UploadError::IoError),
    }
}

impl UploadSession {
    #[verifier::type_invariant]
    spec fn inv(self) -> bool {
        self@.well_formed()
    }

    /// Begins the upload that `info` describes: its bytes are being staged.
    pub fn begin(info: FileInfo) -> (session: UploadSession)
        ensures
            session@ == (SessionView {
                phase: Phase::Staging,
                uuid: info.uuid@,
                filename: info.original_filename@,
                checksum: None,
                failure: None,
            }),
    {
        UploadSession { info, phase: Phase::Staging, checksum: None, failure: None }
    }

    /// The phase of the upload.
    pub fn phase(&self) -> (phase: Phase)
        ensures
            phase == self@.phase,
    {
        self.phase
    }

    /// The path under which the bytes of the upload are staged.
    pub fn staged_path(&self) -> (path: String)
        ensures
            path@ == self@.staged(),
    {
        prepend_tmp_dir(&self.info.uuid)
    }

    fn failed(self, reason: UploadError) -> (r: Step)
        ensures
            r@ == self@.fail(reason),
    {
        let staged = self.staged_path();
        Step::Next {
            session: UploadSession {
                info: self.info,
                phase: Phase::Failing,
                checksum: self.checksum,
                failure: Some(reason),
            },
            action: Action::Discard { staged },
        }
    }

    fn published(self) -> (r: Step)
        requires
            self@.checksum is Some,
        ensures
            r@ == self@.register(),
    {
        let filename: &str = &self.info.original_filename;
        let filename = filename.to_owned();
        match self.checksum {
            Some(checksum) => {
                let action = Action::Register { checksum: checksum.clone(), filename };
                Step::Next {
                    session: UploadSession {
                        info: self.info,
                        phase: Phase::Registering,
                        checksum: Some(checksum),
                        failure: self.failure,
                    },
                    action,
                }
            },
            None => Step::Done { outcome: Err(UploadError::IoError) },
        }
    }

    /// Takes the upload one step on: `event` is what its driver reports.
    pub fn advance(self, event: Event) -> (r: Step)
        ensures
            r@ == step(self@, event@),
            r matches Step::Next { session, .. } ==> session@.well_formed(),
    {
        proof {
            use_type_invariant(&self);
        }
        match self.phase {
            Phase::Staging => match event {
                Event::StreamEnded { received } => {
                    if received == 0 {
                        self.failed(UploadError::EmptyUpload)
                    } else {
                        let staged = self.staged_path();
                        Step::Next {
                            session: UploadSession {
                                info: self.info,
                                phase: Phase::Hashing,
                                checksum: self.checksum,
                                failure: self.failure,
                            },
                            action: Action::Digest { staged },
                        }
                    }
                },
                _ => self.failed(UploadError::IoError),
            },
            Phase::Hashing => match event {
                Event::Digested { outcome: Ok(checksum) } => {
                    let blob = prepend_upload_dir(checksum.as_str());
                    Step::Next {
                        session: UploadSession {
                            info: self.info,
                            phase: Phase::Publishing,
                            checksum: Some(checksum),
                            failure: self.failure,
                        },
                        action: Action::Probe { blob },
                    }
                },
                Event::Digested { outcome: Err(reason) } => self.failed(reason),
                _ => self.failed(UploadError::IoError),
            },
            Phase::Publishing => match event {
                Event::Probed { present } => {
                    let staged = self.staged_path();
                    if present {
                        Step::Next {
                            session: UploadSession {
                                info: self.info,
                                phase: Phase::Dropping,
                                checksum: self.checksum,
                                failure: self.failure,
                            },
                            action: Action::Discard { staged },
                        }
                    } else {
                        match self.checksum {
                            Some(checksum) => {
                                let to = prepend_upload_dir(checksum.as_str());
                                Step::Next {
                                    session: UploadSession {
                                        info: self.info,
                                        phase: Phase::Moving,
                                        checksum: Some(checksum),
                                        failure: self.failure,
                                    },
                                    action: Action::Move { from: staged, to },
                                }
                            },
                            None => Step::Done { outcome: Err(UploadError::IoError) },
                        }
                    }
                },
                _ => self.failed(UploadError::IoError),
            },
            Phase::Moving => match event {
                Event::Moved => self.published(),
                _ => self.failed(UploadError::IoError),
            },
            Phase::Dropping => match event {
                Event::Discarded { .. } => self.published(),
                _ => self.failed(UploadError::IoError),
            },
            Phase::Registering => match event {
                Event::Registered { outcome } => Step::Done { outcome },
                _ => Step::Done { outcome: Err(UploadError::IoError) },
            },
            Phase::Failing => match self.failure {
                Some(reason) => Step::Done { outcome: Err(reason) },
                None => Step::Done { outcome: Err(UploadError::IoError) },
            },
        }
    }
}

} // verus!
