//! What the library asks of its host and what the host answers.
//!
//! The library never touches the filesystem, the terminal or the record's file. Each
//! of its engines is a function from a state and an event to the next state and a
//! step: either an action that the host is to perform, or the end of the work with
//! its result. The host performs the action, hands back what came of it as the next
//! event, and goes on until the engine ends.

use crate::path::path_views;
use vstd::prelude::*;

verus! {

/// What kind of object a path names, as a stat that does not follow links tells it.
#[derive(Clone, Copy, Debug, PartialEq, Eq, Structural)]
pub enum FileKind {
    Regular,
    Directory,
    Symlink,
    Fifo,
    /// A socket, a device, or anything else.
    Other,
}

/// What a stat that does not follow links tells of an object.
#[derive(Clone, Copy, Debug, PartialEq, Eq, Structural)]
pub struct FileMeta {
    pub kind: FileKind,
    /// Its size in bytes.
    pub size: u64,
    /// Its permission bits.
    pub mode: u32,
}

/// The class of a failure.
#[derive(Clone, Copy, Debug, PartialEq, Eq, Structural)]
pub enum ErrorKind {
    /// What was named does not exist.
    NotFound,
    /// The caller asked for something that cannot be done as asked.
    InvalidInput,
    /// The host was not allowed to do what was asked.
    PermissionDenied,
    /// Something is in the way.
    AlreadyExists,
    /// Any other failure of the host.
    Io,
    /// The library or its host broke a rule of their own: a defect.
    Internal,
}

/// What the host is asked to do. Each line names what `path`, `other` and `number`
/// of the action mean, and the events that may answer it besides `Failed`.
#[derive(Clone, Copy, Debug, PartialEq, Eq, Structural)]
pub enum Op {
    /// Stat `path` without following links. Answer: `Meta`.
    Stat,
    /// Does anything, a broken link included, stand at `path`? Answer: `Answer`.
    Exists,
    /// Resolve `path` to its canonical absolute form. Answer: `Text`.
    Canonicalize,
    /// Rename `path` to `other`. Answer: `Done`.
    Rename,
    /// Create the directory `path` and all that is missing above it. Answer: `Done`.
    CreateDirAll,
    /// List `path` and everything below it, each directory before what it holds,
    /// without following links. Answer: `Listing`, or `Failed` if any part cannot be
    /// read.
    Walk,
    /// Copy the content of `path` to `other`. Answer: `Done`.
    CopyFile,
    /// Make a named pipe at `path` with the permission bits `number`. Answer: `Done`.
    MakeFifo,
    /// Read where the link `path` points. Answer: `Text`.
    ReadLink,
    /// Make a link at `other` that points to `path`. Answer: `Done`.
    Symlink,
    /// Write at `path` a file that says that what was there could not be kept.
    /// Answer: `Done`.
    WriteMarker,
    /// Remove the file or link `path`. Answer: `Done`.
    RemoveFile,
    /// Remove the empty directory `path`. Answer: `Done`.
    RemoveDir,
    /// Remove the directory `path` with all that is in it. Answer: `Done`.
    RemoveDirAll,
    /// Read the record's file `path`. Answer: `Text`.
    ReadRecord,
    /// Add the line `other` at the end of the record's file `path`, which is
    /// created if it is missing. Answer: `Done`.
    AppendRecord,
    /// Replace the content of the record's file `path` by `other`. Answer: `Done`.
    WriteRecord,
    /// Read the first `number` lines of the file `path`. Answer: `Lines`.
    ReadLines,
    /// Say that `path`, of `number` bytes, is too big to be copied, and ask whether
    /// to delete it for good instead. Answer: `Answer`.
    ConfirmBigFile,
    /// Say that `path` is no regular file, and ask whether to delete it for good.
    /// Answer: `Answer`.
    ConfirmSpecialFile,
    /// Say that `path` is in the graveyard already, and ask whether to unlink it for
    /// good. Answer: `Answer`.
    ConfirmUnlink,
    /// Ask whether to send `path` to the graveyard. Answer: `Answer`.
    ConfirmBury,
    /// Ask whether to unlink the whole graveyard `path`. Answer: `Answer`.
    ConfirmDecompose,
    /// Say that `path` is skipped. Answer: `Done`.
    TellSkipping,
    /// Say that `path` was returned to `other`. Answer: `Done`.
    TellReturned,
    /// Say that `path` is a grave. Answer: `Done`.
    TellGrave,
    /// Say that `path` is a directory that holds `number` bytes. Answer: `Done`.
    TellDirectory,
    /// Say that `path` is a file of `number` bytes. Answer: `Done`.
    TellFile,
    /// Say that `path` is found in the directory under inspection. Answer: `Done`.
    TellChild,
    /// Say that `path` is a line of the file under inspection. Answer: `Done`.
    TellLine,
    /// Say that `path` could not be read. Answer: `Done`.
    TellUnreadable,
    /// Print how the program is used. Answer: `Done`.
    PrintHelp,
}

/// One request to the host.
#[derive(Debug, PartialEq, Eq)]
pub struct Action {
    pub op: Op,
    pub path: Vec<u8>,
    pub other: Vec<u8>,
    pub number: u64,
}

/// One request to the host, as a value of the model.
pub struct ActionView {
    pub op: Op,
    pub path: Seq<u8>,
    pub other: Seq<u8>,
    pub number: u64,
}

impl View for Action {
    type V = ActionView;

    open spec fn view(&self) -> ActionView {
        ActionView { op: self.op, path: self.path@, other: self.other@, number: self.number }
    }
}

/// One object found by a walk.
#[derive(Debug, PartialEq, Eq)]
pub struct WalkEntry {
    /// Its path, which begins with the path that the walk started from.
    pub path: Vec<u8>,
    pub kind: FileKind,
    /// How many directories lie between the start of the walk and the object, the
    /// start itself being at depth 0.
    pub depth: usize,
    /// Its size in bytes, if it could be told.
    pub size: Option<u64>,
}

/// One object found by a walk, as a value of the model.
pub struct WalkEntryView {
    pub path: Seq<u8>,
    pub kind: FileKind,
    pub depth: usize,
    pub size: Option<u64>,
}

impl View for WalkEntry {
    type V = WalkEntryView;

    open spec fn view(&self) -> WalkEntryView {
        WalkEntryView { path: self.path@, kind: self.kind, depth: self.depth, size: self.size }
    }
}

/// What came of the action that the host performed last.
#[derive(Debug, PartialEq, Eq)]
pub enum Event {
    /// Nothing was asked yet: the event that starts an engine.
    Start,
    /// The action was performed.
    Done,
    /// The action failed.
    Failed(ErrorKind),
    /// What the stat told.
    Meta(FileMeta),
    /// Yes or no.
    Answer(bool),
    /// The path or the content that was asked for.
    Text(Vec<u8>),
    /// What the walk found, in the order in which it found it.
    Listing(Vec<WalkEntry>),
    /// The lines that were read, without their line ends.
    Lines(Vec<Vec<u8>>),
}

/// What came of the last action, as a value of the model.
pub enum EventView {
    Start,
    Done,
    Failed(ErrorKind),
    Meta(FileMeta),
    Answer(bool),
    Text(Seq<u8>),
    Listing(Seq<WalkEntryView>),
    Lines(Seq<Seq<u8>>),
}

/// The objects that `entries` holds, as values of the model.
pub open spec fn entry_views(entries: Seq<WalkEntry>) -> Seq<WalkEntryView> {
    entries.map_values(|e: WalkEntry| e@)
}

impl View for Event {
    type V = EventView;

    open spec fn view(&self) -> EventView {
        match self {
            Event::Start => EventView::Start,
            Event::Done => EventView::Done,
            Event::Failed(kind) => EventView::Failed(*kind),
            Event::Meta(meta) => EventView::Meta(*meta),
            Event::Answer(yes) => EventView::Answer(*yes),
            Event::Text(text) => EventView::Text(text@),
            Event::Listing(entries) => EventView::Listing(entry_views(entries@)),
            Event::Lines(lines) => EventView::Lines(path_views(lines@)),
        }
    }
}

/// At which point of the work a failure arose. Each line names what `path` and
/// `other` of the failure mean.
#[derive(Clone, Copy, Debug, PartialEq, Eq, Structural)]
pub enum Reason {
    /// The stat of `path` failed.
    Stat,
    /// The question about `path` could not be asked or answered.
    Prompt,
    /// The message about `path` could not be delivered.
    Tell,
    /// Neither a copy, a link nor a pipe could be made at `path`.
    Copy,
    /// The link `path` could not be read.
    ReadLink,
    /// No marker could be written at `path`.
    Marker,
    /// `path`, to which something was to be moved, has no parent directory.
    NoParent,
    /// The parent directory of `path` could not be created.
    CreateParent,
    /// The directory `path` could not be listed in full.
    Walk,
    /// The walk of `other` found `path`, which does not lie under it.
    NotUnderParent,
    /// The directory `path` could not be created as `other`.
    CreateDir,
    /// `path` could not be copied to `other`.
    CopyFile,
    /// The directory `path` could not be removed after it was copied to `other`.
    RemoveDir,
    /// `path` could not be removed after it was copied to `other`.
    RemoveFile,
    /// `path`, which was to be buried, does not exist.
    NoSuchTarget,
    /// `path` could not be brought into canonical form.
    Canonicalize,
    /// `path`, which lies in the graveyard, could not be unlinked.
    Unlink,
    /// `path` is too big to be copied, and the user chose not to delete it.
    TooBig,
    /// `path` holds a byte that cannot stand in the record.
    Unrecordable,
    /// Every alternate name for `path` is taken.
    NoFreeName,
    /// The record `path` could not be written.
    Record,
    /// The graveyard `path` could not be created.
    CreateGraveyard,
    /// The graveyard `path` could not be removed.
    Decompose,
    /// The current directory is not known.
    NoWorkingDirectory,
    /// `--completions` was combined with another option.
    CompletionsNotAlone,
    /// `--decompose` was combined with an option other than `--graveyard`.
    DecomposeNotAlone,
    /// The usage could not be printed.
    Help,
    /// The host answered with an event that does not fit the action.
    Protocol,
}

/// Why the work ended without success.
#[derive(Debug, PartialEq, Eq)]
pub struct Failure {
    pub kind: ErrorKind,
    pub reason: Reason,
    pub path: Vec<u8>,
    pub other: Vec<u8>,
}

/// Why the work ended without success, as a value of the model.
pub struct FailureView {
    pub kind: ErrorKind,
    pub reason: Reason,
    pub path: Seq<u8>,
    pub other: Seq<u8>,
}

impl View for Failure {
    type V = FailureView;

    open spec fn view(&self) -> FailureView {
        FailureView { kind: self.kind, reason: self.reason, path: self.path@, other: self.other@ }
    }
}

/// What an engine wants next.
#[derive(Debug, PartialEq, Eq)]
pub enum Step<T> {
    /// The host is to perform the action and to hand back what came of it.
    Perform(Action),
    /// The work has ended, with this result.
    Finished(Result<T, Failure>),
}

/// What an engine wants next, as a value of the model.
pub enum StepView<T> {
    Perform(ActionView),
    Finished(Result<T, FailureView>),
}

impl<T> View for Step<T> {
    type V = StepView<T>;

    open spec fn view(&self) -> StepView<T> {
        match self {
            Step::Perform(action) => StepView::Perform(action@),
            Step::Finished(Ok(value)) => StepView::Finished(Ok(*value)),
            Step::Finished(Err(failure)) => StepView::Finished(Err(failure@)),
        }
    }
}

/// The first step of an engine that another engine has started, handed on as the
/// step of that other engine. No engine ends at its first step.
pub open spec fn relayed<A, B>(step: StepView<A>) -> StepView<B> {
    match step {
        StepView::Perform(action) => StepView::Perform(action),
        StepView::Finished(_) => StepView::Finished(
            Err(failure(ErrorKind::Internal, Reason::Protocol, Seq::<u8>::empty())),
        ),
    }
}

/// The request of the model that asks for `op` on `path`.
pub open spec fn request(op: Op, path: Seq<u8>) -> ActionView {
    ActionView { op, path, other: Seq::<u8>::empty(), number: 0 }
}

/// The request of the model that asks for `op` on `path` and `other`.
pub open spec fn request_pair(op: Op, path: Seq<u8>, other: Seq<u8>) -> ActionView {
    ActionView { op, path, other, number: 0 }
}

/// The request of the model that asks for `op` on `path` with `number`.
pub open spec fn request_number(op: Op, path: Seq<u8>, number: u64) -> ActionView {
    ActionView { op, path, other: Seq::<u8>::empty(), number }
}

/// The failure of the model that arose at `reason` on `path`.
pub open spec fn failure(kind: ErrorKind, reason: Reason, path: Seq<u8>) -> FailureView {
    FailureView { kind, reason, path, other: Seq::<u8>::empty() }
}

/// The failure of the model that arose at `reason` on `path` and `other`.
pub open spec fn failure_pair(kind: ErrorKind, reason: Reason, path: Seq<u8>, other: Seq<u8>) -> FailureView {
    FailureView { kind, reason, path, other }
}

impl Action {
    /// Asks for `op` on `path`.
    pub fn new(op: Op, path: &[u8]) -> (action: Action)
        ensures
            action@ == request(op, path@),
    {
        Action { op, path: crate::path::to_owned_bytes(path), other: Vec::new(), number: 0 }
    }

    /// Asks for `op` on `path` and `other`.
    pub fn pair(op: Op, path: &[u8], other: &[u8]) -> (action: Action)
        ensures
            action@ == request_pair(op, path@, other@),
    {
        Action {
            op,
            path: crate::path::to_owned_bytes(path),
            other: crate::path::to_owned_bytes(other),
            number: 0,
        }
    }

    /// Asks for `op` on `path` with `number`.
    pub fn with_number(op: Op, path: &[u8], number: u64) -> (action: Action)
        ensures
            action@ == request_number(op, path@, number),
    {
        Action { op, path: crate::path::to_owned_bytes(path), other: Vec::new(), number }
    }
}

impl Failure {
    /// The failure that arose at `reason` on `path`.
    pub fn new(kind: ErrorKind, reason: Reason, path: &[u8]) -> (fail: Failure)
        ensures
            fail@ == failure(kind, reason, path@),
    {
        Failure { kind, reason, path: crate::path::to_owned_bytes(path), other: Vec::new() }
    }

    /// The failure that arose at `reason` on `path` and `other`.
    pub fn pair(kind: ErrorKind, reason: Reason, path: &[u8], other: &[u8]) -> (fail: Failure)
        ensures
            fail@ == failure_pair(kind, reason, path@, other@),
    {
        Failure {
            kind,
            reason,
            path: crate::path::to_owned_bytes(path),
            other: crate::path::to_owned_bytes(other),
        }
    }
}

/// Hands on the first step of an engine that another engine has started.
pub fn relay<A, B>(step: Step<A>) -> (out: Step<B>)
    ensures
        out@ == relayed::<A, B>(step@),
{
    match step {
        Step::Perform(action) => Step::Perform(action),
        Step::Finished(_) => Step::Finished(
            Err(Failure::new(ErrorKind::Internal, Reason::Protocol, Vec::new().as_slice())),
        ),
    }
}

} // verus!
