//! One write to a file: what is done with the file, step by step, and what the
//! record of its metadata says in between.
use crate::file::{
    check_resolved, open_error, path_key, LedgerView, MetadataLedger, PathSample, WriteStage,
};
use crate::file_path::climbs;
use vstd::prelude::*;

verus! {

/// Where a write stands.
#[derive(Debug, Clone, Copy, PartialEq, Eq, Structural)]
pub enum FilePhase {
    MakingDirectory,
    Probing,
    Opening,
    Writing,
    SettingMetadata,
    Finished,
}

/// What came of a step. Whether a directory could be made, or metadata be set,
/// changes nothing about the write.
#[derive(Debug)]
pub enum FileEvent {
    DirectoryTried,
    Probed { exists: bool },
    Opened,
    OpenFailed { is_symlink: bool, error: String },
    Written,
    WriteFailed { error: String },
    MetadataTried,
}

/// What is to be done next: make the directory of the file, look whether the file is
/// there, open it for appending, write the line, set the metadata, or end.
#[derive(Debug)]
pub enum FileAction {
    MakeDirectory,
    Probe,
    Open,
    Write,
    SetMetadata,
    Done,
    Fail { error: String },
}

/// A [`FileEvent`], its text as a sequence of characters.
pub ghost enum FileEventView {
    DirectoryTried,
    Probed { exists: bool },
    Opened,
    OpenFailed { is_symlink: bool, error: Seq<char> },
    Written,
    WriteFailed { error: Seq<char> },
    MetadataTried,
}

/// A [`FileAction`], its text as a sequence of characters.
pub ghost enum FileActionView {
    MakeDirectory,
    Probe,
    Open,
    Write,
    SetMetadata,
    Done,
    Fail { error: Seq<char> },
}

impl View for FileEvent {
    type V = FileEventView;

    open spec fn view(&self) -> FileEventView {
        match self {
            FileEvent::DirectoryTried => FileEventView::DirectoryTried,
            FileEvent::Probed { exists } => FileEventView::Probed { exists: *exists },
            FileEvent::Opened => FileEventView::Opened,
            FileEvent::OpenFailed { is_symlink, error } => FileEventView::OpenFailed {
                is_symlink: *is_symlink,
                error: error@,
            },
            FileEvent::Written => FileEventView::Written,
            FileEvent::WriteFailed { error } => FileEventView::WriteFailed { error: error@ },
            FileEvent::MetadataTried => FileEventView::MetadataTried,
        }
    }
}

impl View for FileAction {
    type V = FileActionView;

    open spec fn view(&self) -> FileActionView {
        match self {
            FileAction::MakeDirectory => FileActionView::MakeDirectory,
            FileAction::Probe => FileActionView::Probe,
            FileAction::Open => FileActionView::Open,
            FileAction::Write => FileActionView::Write,
            FileAction::SetMetadata => FileActionView::SetMetadata,
            FileAction::Done => FileActionView::Done,
            FileAction::Fail { error } => FileActionView::Fail { error: error@ },
        }
    }
}

/// The state of a write. `sample` is what was known of the path before it was
/// opened, `written` whether the line is out.
pub ghost struct FileWriteView {
    pub path: Seq<char>,
    pub sample: PathSample,
    pub written: bool,
    pub phase: FilePhase,
}

impl FileWriteView {
    /// The state before the first step; a path that climbs is not touched at all.
    pub open spec fn start(path: Seq<char>, dynamic: bool) -> FileWriteView {
        FileWriteView {
            path,
            sample: PathSample { preexisted: false, owes: false, applied: false },
            written: false,
            phase: if climbs(path) {
                FilePhase::Finished
            } else if dynamic {
                FilePhase::MakingDirectory
            } else {
                FilePhase::Probing
            },
        }
    }

    /// The first step.
    pub open spec fn first_action(path: Seq<char>, dynamic: bool) -> FileActionView {
        if climbs(path) {
            FileActionView::Fail { error: "path traversal rejected: "@ + path }
        } else if dynamic {
            FileActionView::MakeDirectory
        } else {
            FileActionView::Probe
        }
    }

    /// Whether this can come next.
    pub open spec fn accepts(self, e: FileEventView) -> bool {
        match e {
            FileEventView::DirectoryTried => self.phase is MakingDirectory,
            FileEventView::Probed { .. } => self.phase is Probing,
            FileEventView::Opened => self.phase is Opening,
            FileEventView::OpenFailed { .. } => self.phase is Opening,
            FileEventView::Written => self.phase is Writing,
            FileEventView::WriteFailed { .. } => self.phase is Writing,
            FileEventView::MetadataTried => self.phase is SettingMetadata,
        }
    }

    /// The state after an event, with the record as it was before.
    pub open spec fn after(self, e: FileEventView, record: LedgerView) -> FileWriteView {
        FileWriteView {
            path: self.path,
            sample: match e {
                FileEventView::Probed { exists } => record.sampled(path_key(self.path), exists),
                _ => self.sample,
            },
            written: self.written || e is Written,
            phase: match e {
                FileEventView::DirectoryTried => FilePhase::Probing,
                FileEventView::Probed { .. } => FilePhase::Opening,
                FileEventView::Opened => FilePhase::Writing,
                FileEventView::Written => if self.sample.should_apply() {
                    FilePhase::SettingMetadata
                } else {
                    FilePhase::Finished
                },
                _ => FilePhase::Finished,
            },
        }
    }

    /// What is to be done after an event.
    pub open spec fn action(self, e: FileEventView) -> FileActionView {
        match e {
            FileEventView::DirectoryTried => FileActionView::Probe,
            FileEventView::Probed { .. } => FileActionView::Open,
            FileEventView::Opened => FileActionView::Write,
            FileEventView::OpenFailed { is_symlink, error } => FileActionView::Fail {
                error: if is_symlink {
                    "refusing to follow symlink at output path: "@ + self.path
                } else {
                    error
                },
            },
            FileEventView::Written => if self.sample.should_apply() {
                FileActionView::SetMetadata
            } else {
                FileActionView::Done
            },
            FileEventView::WriteFailed { error } => FileActionView::Fail { error },
            FileEventView::MetadataTried => FileActionView::Done,
        }
    }

    /// The record after an event.
    pub open spec fn recorded(self, e: FileEventView, record: LedgerView) -> LedgerView {
        match e {
            FileEventView::Opened => record.opened(path_key(self.path), self.sample),
            FileEventView::MetadataTried => record.settled(path_key(self.path)),
            _ => record,
        }
    }
}

/// One write in progress.
#[derive(Debug)]
pub struct FileWrite {
    path: String,
    sample: PathSample,
    written: bool,
    phase: FilePhase,
}

impl View for FileWrite {
    type V = FileWriteView;

    closed spec fn view(&self) -> FileWriteView {
        FileWriteView {
            path: self.path@,
            sample: self.sample,
            written: self.written,
            phase: self.phase,
        }
    }
}

impl FileWrite {
    /// Starts a write to a path; `dynamic` says whether it was rendered from a
    /// template.
    pub fn new(path: &str, dynamic: bool) -> (r: (FileWrite, FileAction))
        ensures
            r.0@ == FileWriteView::start(path@, dynamic),
            r.1@ == FileWriteView::first_action(path@, dynamic),
    {
        let sample = PathSample { preexisted: false, owes: false, applied: false };
        let (phase, action) = match check_resolved(path) {
            Err(e) => (FilePhase::Finished, FileAction::Fail { error: e.message }),
            Ok(()) => if dynamic {
                (FilePhase::MakingDirectory, FileAction::MakeDirectory)
            } else {
                (FilePhase::Probing, FileAction::Probe)
            },
        };
        (FileWrite { path: path.to_owned(), sample, written: false, phase }, action)
    }

    /// Whether the line is out.
    pub fn written(&self) -> (r: bool)
        ensures
            r == self@.written,
    {
        self.written
    }

    /// Takes in what came of the last step and says what is to be done next.
    pub fn step(&mut self, event: FileEvent, ledger: &mut MetadataLedger) -> (action: FileAction)
        requires
            old(self)@.accepts(event@),
        ensures
            final(self)@ == old(self)@.after(event@, old(ledger)@),
            action@ == old(self)@.action(event@),
            final(ledger)@ == old(self)@.recorded(event@, old(ledger)@),
    {
        match event {
            FileEvent::DirectoryTried => {
                self.phase = FilePhase::Probing;
                FileAction::Probe
            },
            FileEvent::Probed { exists } => {
                self.sample = ledger.sample(self.path.as_str(), exists);
                self.phase = FilePhase::Opening;
                FileAction::Open
            },
            FileEvent::Opened => {
                let _ = ledger.opened(self.path.as_str(), self.sample);
                self.phase = FilePhase::Writing;
                FileAction::Write
            },
            FileEvent::OpenFailed { is_symlink, error } => {
                self.phase = FilePhase::Finished;
                let error = open_error(self.path.as_str(), is_symlink, error.as_str());
                FileAction::Fail { error: error.message }
            },
            FileEvent::Written => {
                self.written = true;
                let apply = !self.sample.applied && (self.sample.owes || !self.sample.preexisted);
                if apply {
                    self.phase = FilePhase::SettingMetadata;
                    FileAction::SetMetadata
                } else {
                    self.phase = FilePhase::Finished;
                    FileAction::Done
                }
            },
            FileEvent::WriteFailed { error } => {
                self.phase = FilePhase::Finished;
                FileAction::Fail { error }
            },
            FileEvent::MetadataTried => {
                ledger.settled(self.path.as_str());
                self.phase = FilePhase::Finished;
                FileAction::Done
            },
        }
    }
}

/// The state and the record after a sequence of events.
pub open spec fn run(s: FileWriteView, record: LedgerView, es: Seq<FileEventView>) -> (
    FileWriteView,
    LedgerView,
)
    decreases es.len(),
{
    if es.len() == 0 {
        (s, record)
    } else {
        let (before, so_far) = run(s, record, es.drop_last());
        (before.after(es.last(), so_far), before.recorded(es.last(), so_far))
    }
}

/// Whether each event could come where it came.
pub open spec fn accepted(s: FileWriteView, record: LedgerView, es: Seq<FileEventView>) -> bool
    decreases es.len(),
{
    es.len() == 0 || (accepted(s, record, es.drop_last()) && run(
        s,
        record,
        es.drop_last(),
    ).0.accepts(es.last()))
}

/// Whether the file was there when a write looked.
pub open spec fn found(es: Seq<FileEventView>) -> bool
    decreases es.len(),
{
    es.len() > 0 && match es.last() {
        FileEventView::Probed { exists } => exists,
        _ => found(es.drop_last()),
    }
}

/// How far a write came.
pub open spec fn stage(s: FileWriteView, e: FileEventView) -> WriteStage {
    match e {
        FileEventView::Opened | FileEventView::WriteFailed { .. } => WriteStage::Opened,
        FileEventView::MetadataTried => WriteStage::Done,
        FileEventView::Written => if s.sample.should_apply() {
            WriteStage::Opened
        } else {
            WriteStage::Done
        },
        _ => WriteStage::NotOpened,
    }
}

/// Wherever a write is broken off, the record says of its path what it is meant to
/// say of a write that came as far: nothing before the file was opened, that the
/// metadata are owed from then on, and that they are set once they are.
pub proof fn law_record_keeps_pace_with_the_write(
    path: Seq<char>,
    dynamic: bool,
    record: LedgerView,
    es: Seq<FileEventView>,
    e: FileEventView,
)
    requires
        accepted(FileWriteView::start(path, dynamic), record, es.push(e)),
    ensures
        ({
            let s = FileWriteView::start(path, dynamic);
            run(s, record, es.push(e)).1 == record.after(
                path_key(path),
                found(es.push(e)),
                stage(run(s, record, es).0, e),
            )
        }),
{
    lemma_run(path, dynamic, record, es.push(e));
    assert(es.push(e).drop_last() =~= es);
    lemma_run(path, dynamic, record, es);
}

/// The line goes out before the metadata are set, and only into a file that is
/// open; a write that is done has it out.
pub proof fn law_line_precedes_the_metadata(
    path: Seq<char>,
    dynamic: bool,
    record: LedgerView,
    es: Seq<FileEventView>,
    e: FileEventView,
)
    requires
        accepted(FileWriteView::start(path, dynamic), record, es.push(e)),
    ensures
        ({
            let s = FileWriteView::start(path, dynamic);
            let before = run(s, record, es).0;
            let after = run(s, record, es.push(e)).0;
            &&& before.action(e) is SetMetadata ==> after.written
            &&& before.action(e) is Done ==> after.written
            &&& before.action(e) is Write ==> e is Opened && !after.written
            &&& before.action(e) is Fail ==> !after.written
        }),
{
    assert(es.push(e).drop_last() =~= es);
    lemma_run(path, dynamic, record, es);
}

/// The state and the record in each phase.
spec fn in_step(
    path: Seq<char>,
    record: LedgerView,
    es: Seq<FileEventView>,
    s: FileWriteView,
    so_far: LedgerView,
) -> bool {
    let key = path_key(path);
    &&& s.path == path
    &&& match s.phase {
        FilePhase::MakingDirectory | FilePhase::Probing => so_far == record && !s.written
            && !found(es),
        FilePhase::Opening => {
            &&& so_far == record
            &&& s.sample == record.sampled(key, found(es))
            &&& !s.written
        },
        FilePhase::Writing => {
            &&& so_far == record.after(key, found(es), WriteStage::Opened)
            &&& s.sample == record.sampled(key, found(es))
            &&& !s.written
        },
        FilePhase::SettingMetadata => {
            &&& so_far == record.after(key, found(es), WriteStage::Opened)
            &&& s.sample == record.sampled(key, found(es))
            &&& s.sample.should_apply()
            &&& s.written
        },
        FilePhase::Finished => true,
    }
}

proof fn lemma_run(path: Seq<char>, dynamic: bool, record: LedgerView, es: Seq<FileEventView>)
    requires
        accepted(FileWriteView::start(path, dynamic), record, es),
    ensures
        ({
            let (s, so_far) = run(FileWriteView::start(path, dynamic), record, es);
            in_step(path, record, es, s, so_far)
        }),
    decreases es.len(),
{
    if es.len() > 0 {
        lemma_run(path, dynamic, record, es.drop_last());
    }
}

} // verus!
