//! The move of an object from one path to another. A rename is tried first. Where
//! that fails, as it does across filesystems, the object is copied and the source
//! removed: a directory entry by entry, in the order in which a walk lists it.
//!
//! Every place at which the copy makes something is written down before the host is
//! asked to make it. If the move fails after that, whether while copying or because
//! the source cannot be removed when all is copied, these places are removed again,
//! last made first, and only then is the failure reported: a move that fails leaves
//! nothing at the destination. The source is removed only when every entry has been
//! copied.

use crate::copy::{
    copy_asks, copy_file, copy_rank, copy_step, lemma_copy_asks, lemma_copy_comes_to_an_end,
    Copied, CopyState,
};
use crate::host::{
    entry_views, failure, failure_pair, relay, relayed, request, Action, ErrorKind, Event,
    EventView, Failure, FailureView, FileKind, Op, Reason, Step, StepView, WalkEntry,
    WalkEntryView,
};
use crate::path::{parent, parent_of, reroot, rerooted, to_owned_bytes};
use vstd::prelude::*;

verus! {

/// What a move that succeeded has left at the destination.
#[derive(Clone, Copy, Debug, PartialEq, Eq, Structural)]
pub enum Moved {
    /// The object.
    Relocated,
    /// Nothing: the object was a single file that the user chose to delete for good.
    Discarded,
}

/// What the move is waiting for.
#[derive(Clone, Copy, Debug, PartialEq, Eq, Structural)]
pub enum MovePhase {
    /// Nothing was asked yet.
    Start,
    /// The rename.
    Rename,
    /// The making of the destination's parent directory.
    Parent,
    /// The stat of the source.
    Stat,
    /// The listing of the source, a directory.
    Walk,
    /// The making of the directory for the entry at `index`.
    Dir,
    /// A step of the copy of the entry at `index`.
    Leaf,
    /// A step of the copy of the source itself, which is no directory.
    Single,
    /// The removal of the source, a directory that has been copied.
    RemoveDir,
    /// The removal of the source, a single object that has been copied.
    RemoveFile,
    /// The removal of the place made last, after a failure.
    Undo,
}

/// A place at which the copy has asked for something to be made.
#[derive(Debug, PartialEq, Eq)]
pub struct Made {
    pub path: Vec<u8>,
    /// Whether a directory was asked for.
    pub dir: bool,
}

/// A place at which the copy has asked for something to be made, as a value of the
/// model.
pub struct MadeView {
    pub path: Seq<u8>,
    pub dir: bool,
}

impl View for Made {
    type V = MadeView;

    open spec fn view(&self) -> MadeView {
        MadeView { path: self.path@, dir: self.dir }
    }
}

/// How far a move has come.
#[derive(Debug, PartialEq, Eq)]
pub struct MoveState {
    pub phase: MovePhase,
    /// What the walk of the source has listed.
    pub entries: Vec<WalkEntry>,
    /// How many of the entries have been copied.
    pub index: usize,
    /// The places at which something was asked to be made, in the order of asking.
    pub created: Vec<Made>,
    /// How far the copy of the current entry has come.
    pub copy: CopyState,
    /// Whether the single object that was to be copied was deleted instead.
    pub discarded: bool,
    /// Why the move failed, while what it made is being removed.
    pub failure: Option<Failure>,
}

/// How far a move has come, as a value of the model.
pub struct MoveStateView {
    pub phase: MovePhase,
    pub entries: Seq<WalkEntryView>,
    pub index: nat,
    pub created: Seq<MadeView>,
    pub copy: CopyState,
    pub discarded: bool,
    pub failure: Option<FailureView>,
}

/// The places that `made` holds, as values of the model.
pub open spec fn made_views(made: Seq<Made>) -> Seq<MadeView> {
    made.map_values(|m: Made| m@)
}

/// The failure that `failure` holds, as a value of the model.
pub open spec fn failure_view(failure: Option<Failure>) -> Option<FailureView> {
    match failure {
        Some(f) => Some(f@),
        None => None,
    }
}

impl View for MoveState {
    type V = MoveStateView;

    open spec fn view(&self) -> MoveStateView {
        MoveStateView {
            phase: self.phase,
            entries: entry_views(self.entries@),
            index: self.index as nat,
            created: made_views(self.created@),
            copy: self.copy,
            discarded: self.discarded,
            failure: failure_view(self.failure),
        }
    }
}

/// The state of a move of which nothing was asked yet.
pub open spec fn move_fresh() -> MoveStateView {
    MoveStateView {
        phase: MovePhase::Start,
        entries: Seq::<WalkEntryView>::empty(),
        index: 0,
        created: Seq::<MadeView>::empty(),
        copy: CopyState::Start,
        discarded: false,
        failure: None,
    }
}

/// The end of a move with `result`; the engine is ready for the next one.
pub open spec fn move_ends(result: Result<Moved, FailureView>) -> (
    MoveStateView,
    StepView<Moved>,
) {
    (move_fresh(), StepView::Finished(result))
}

/// What the host is asked to do to take away what was asked for at `made`.
pub open spec fn removal(made: MadeView) -> crate::host::ActionView {
    request(
        if made.dir {
            Op::RemoveDir
        } else {
            Op::RemoveFile
        },
        made.path,
    )
}

/// The next step of taking away what the copy has made: the place made last is
/// removed and forgotten; when none is left, the move ends with its failure.
pub open spec fn move_undo(state: MoveStateView) -> (MoveStateView, StepView<Moved>) {
    if state.created.len() == 0 {
        move_ends(
            Err(
                match state.failure {
                    Some(f) => f,
                    None => failure(ErrorKind::Internal, Reason::Protocol, Seq::<u8>::empty()),
                },
            ),
        )
    } else {
        (
            MoveStateView {
                phase: MovePhase::Undo,
                created: state.created.drop_last(),
                ..state
            },
            StepView::Perform(removal(state.created.last())),
        )
    }
}

/// The move has failed with `failure`: what it made is taken away, then it ends.
pub open spec fn move_fails(state: MoveStateView, failure: FailureView) -> (
    MoveStateView,
    StepView<Moved>,
) {
    move_undo(MoveStateView { failure: Some(failure), ..state })
}

/// The copy of the entry at `index` begins, or, when every entry has been copied,
/// the removal of the source. An entry that does not lie under the source fails
/// the move.
pub open spec fn move_advance(target: Seq<u8>, dest: Seq<u8>, state: MoveStateView) -> (
    MoveStateView,
    StepView<Moved>,
) {
    if state.index >= state.entries.len() {
        (
            MoveStateView { phase: MovePhase::RemoveDir, ..state },
            StepView::Perform(request(Op::RemoveDirAll, target)),
        )
    } else {
        let entry = state.entries[state.index as int];
        match rerooted(entry.path, target, dest) {
            None => move_fails(
                state,
                failure_pair(ErrorKind::Internal, Reason::NotUnderParent, entry.path, target),
            ),
            Some(place) => {
                let dir = entry.kind == FileKind::Directory;
                let created = state.created.push(MadeView { path: place, dir });
                if dir {
                    (
                        MoveStateView { phase: MovePhase::Dir, created, ..state },
                        StepView::Perform(request(Op::CreateDirAll, place)),
                    )
                } else {
                    let first = copy_step(entry.path, place, CopyState::Start, EventView::Start);
                    (
                        MoveStateView { phase: MovePhase::Leaf, created, copy: first.0, ..state },
                        relayed(first.1),
                    )
                }
            },
        }
    }
}

/// The state in which the entry at `index` is done with.
pub open spec fn move_past(state: MoveStateView) -> MoveStateView {
    MoveStateView { index: state.index + 1, ..state }
}

/// What the move of `target` to `dest` does next, in `state`, when `event` comes in.
pub open spec fn move_step(
    target: Seq<u8>,
    dest: Seq<u8>,
    state: MoveStateView,
    event: EventView,
) -> (MoveStateView, StepView<Moved>) {
    match state.phase {
        MovePhase::Start => (
            MoveStateView { phase: MovePhase::Rename, ..move_fresh() },
            StepView::Perform(crate::host::request_pair(Op::Rename, target, dest)),
        ),
        MovePhase::Rename => match event {
            EventView::Done => move_ends(Ok(Moved::Relocated)),
            EventView::Failed(_) => match parent_of(dest) {
                None => move_ends(Err(failure(ErrorKind::NotFound, Reason::NoParent, dest))),
                Some(dir) => (
                    MoveStateView { phase: MovePhase::Parent, ..state },
                    StepView::Perform(request(Op::CreateDirAll, dir)),
                ),
            },
            _ => move_ends(Err(failure(ErrorKind::Internal, Reason::Protocol, target))),
        },
        MovePhase::Parent => match event {
            EventView::Done => (
                MoveStateView { phase: MovePhase::Stat, ..state },
                StepView::Perform(request(Op::Stat, target)),
            ),
            EventView::Failed(kind) => move_ends(Err(failure(kind, Reason::CreateParent, dest))),
            _ => move_ends(Err(failure(ErrorKind::Internal, Reason::Protocol, target))),
        },
        MovePhase::Stat => match event {
            EventView::Meta(meta) => if meta.kind == FileKind::Directory {
                (
                    MoveStateView { phase: MovePhase::Walk, ..state },
                    StepView::Perform(request(Op::Walk, target)),
                )
            } else {
                let first = copy_step(target, dest, CopyState::Start, EventView::Start);
                (
                    MoveStateView {
                        phase: MovePhase::Single,
                        created: seq![MadeView { path: dest, dir: false }],
                        copy: first.0,
                        ..state
                    },
                    relayed(first.1),
                )
            },
            EventView::Failed(kind) => move_ends(Err(failure(kind, Reason::Stat, target))),
            _ => move_ends(Err(failure(ErrorKind::Internal, Reason::Protocol, target))),
        },
        MovePhase::Walk => match event {
            EventView::Listing(entries) => move_advance(
                target,
                dest,
                MoveStateView { entries, index: 0, created: Seq::<MadeView>::empty(), ..state },
            ),
            EventView::Failed(kind) => move_ends(Err(failure(kind, Reason::Walk, target))),
            _ => move_ends(Err(failure(ErrorKind::Internal, Reason::Protocol, target))),
        },
        MovePhase::Dir => if state.index >= state.entries.len() || state.created.len() == 0 {
            move_fails(state, failure(ErrorKind::Internal, Reason::Protocol, target))
        } else {
            match event {
                EventView::Done => move_advance(target, dest, move_past(state)),
                EventView::Failed(kind) => move_fails(
                    state,
                    failure_pair(
                        kind,
                        Reason::CreateDir,
                        state.entries[state.index as int].path,
                        state.created.last().path,
                    ),
                ),
                _ => move_fails(state, failure(ErrorKind::Internal, Reason::Protocol, target)),
            }
        },
        MovePhase::Leaf => if state.index >= state.entries.len() || state.created.len() == 0 {
            move_fails(state, failure(ErrorKind::Internal, Reason::Protocol, target))
        } else {
            let source = state.entries[state.index as int].path;
            let place = state.created.last().path;
            let inner = copy_step(source, place, state.copy, event);
            let state = MoveStateView { copy: inner.0, ..state };
            match inner.1 {
                StepView::Perform(action) => (state, StepView::Perform(action)),
                StepView::Finished(Ok(_)) => move_advance(target, dest, move_past(state)),
                StepView::Finished(Err(f)) => move_fails(
                    state,
                    failure_pair(f.kind, Reason::CopyFile, source, place),
                ),
            }
        },
        MovePhase::Single => {
            let inner = copy_step(target, dest, state.copy, event);
            let state = MoveStateView { copy: inner.0, ..state };
            match inner.1 {
                StepView::Perform(action) => (state, StepView::Perform(action)),
                StepView::Finished(Ok(copied)) => (
                    MoveStateView {
                        phase: MovePhase::RemoveFile,
                        discarded: copied == Copied::Discarded,
                        ..state
                    },
                    StepView::Perform(request(Op::RemoveFile, target)),
                ),
                StepView::Finished(Err(f)) => move_fails(
                    state,
                    failure_pair(f.kind, Reason::CopyFile, target, dest),
                ),
            }
        },
        MovePhase::RemoveDir => match event {
            EventView::Done => move_ends(Ok(Moved::Relocated)),
            EventView::Failed(kind) => move_fails(
                state,
                failure_pair(kind, Reason::RemoveDir, target, dest),
            ),
            _ => move_fails(state, failure(ErrorKind::Internal, Reason::Protocol, target)),
        },
        MovePhase::RemoveFile => match event {
            EventView::Done => move_ends(
                Ok(
                    if state.discarded {
                        Moved::Discarded
                    } else {
                        Moved::Relocated
                    },
                ),
            ),
            EventView::Failed(kind) => move_fails(
                state,
                failure_pair(kind, Reason::RemoveFile, target, dest),
            ),
            _ => move_fails(state, failure(ErrorKind::Internal, Reason::Protocol, target)),
        },
        MovePhase::Undo => move_undo(state),
    }
}

impl MoveState {
    /// The state of a move of which nothing was asked yet.
    pub fn new() -> (state: MoveState)
        ensures
            state@ == move_fresh(),
    {
        let state = MoveState {
            phase: MovePhase::Start,
            entries: Vec::new(),
            index: 0,
            created: Vec::new(),
            copy: CopyState::Start,
            discarded: false,
            failure: None,
        };
        assert(state@.entries =~= Seq::<WalkEntryView>::empty());
        assert(state@.created =~= Seq::<MadeView>::empty());
        state
    }
}

fn ends(result: Result<Moved, Failure>) -> (next: (MoveState, Step<Moved>))
    ensures
        (next.0@, next.1@) == move_ends(
            match result {
                Ok(m) => Ok(m),
                Err(f) => Err(f@),
            },
        ),
{
    (MoveState::new(), Step::Finished(result))
}

fn undo(state: MoveState) -> (next: (MoveState, Step<Moved>))
    ensures
        (next.0@, next.1@) == move_undo(state@),
{
    let mut state = state;
    let ghost before = state@;
    match state.created.pop() {
        None => {
            let fail = match state.failure {
                Some(f) => f,
                None => Failure::new(ErrorKind::Internal, Reason::Protocol, Vec::new().as_slice()),
            };
            ends(Err(fail))
        },
        Some(last) => {
            assert(made_views(state.created@) =~= before.created.drop_last());
            state.phase = MovePhase::Undo;
            let op = if last.dir {
                Op::RemoveDir
            } else {
                Op::RemoveFile
            };
            let action = Action::new(op, last.path.as_slice());
            (state, Step::Perform(action))
        },
    }
}

fn fails(state: MoveState, fail: Failure) -> (next: (MoveState, Step<Moved>))
    ensures
        (next.0@, next.1@) == move_fails(state@, fail@),
{
    let mut state = state;
    state.failure = Some(fail);
    undo(state)
}

fn advance(target: &[u8], dest: &[u8], state: MoveState) -> (next: (MoveState, Step<Moved>))
    ensures
        (next.0@, next.1@) == move_advance(target@, dest@, state@),
{
    let mut state = state;
    if state.index >= state.entries.len() {
        state.phase = MovePhase::RemoveDir;
        return (state, Step::Perform(Action::new(Op::RemoveDirAll, target)));
    }
    let ghost before = state@;
    let entry = &state.entries[state.index];
    match reroot(entry.path.as_slice(), target, dest) {
        None => {
            let fail = Failure::pair(
                ErrorKind::Internal,
                Reason::NotUnderParent,
                entry.path.as_slice(),
                target,
            );
            fails(state, fail)
        },
        Some(place) => {
            let dir = match entry.kind {
                FileKind::Directory => true,
                _ => false,
            };
            if dir {
                let action = Action::new(Op::CreateDirAll, place.as_slice());
                state.created.push(Made { path: place, dir });
                state.phase = MovePhase::Dir;
                assert(state@.created =~= before.created.push(MadeView { path: place@, dir }));
                (state, Step::Perform(action))
            } else {
                let first = copy_file(
                    entry.path.as_slice(),
                    place.as_slice(),
                    CopyState::Start,
                    Event::Start,
                );
                state.created.push(Made { path: place, dir });
                state.phase = MovePhase::Leaf;
                state.copy = first.0;
                assert(state@.created =~= before.created.push(MadeView { path: place@, dir }));
                (state, relay(first.1))
            }
        },
    }
}

/// One step of the move of `target` to `dest`.
///
/// The engine asks for a rename and ends with `Relocated` if it succeeds. Otherwise
/// it has the parent directory of `dest` made, asks what `target` is, and copies: a
/// directory by a walk, making each directory found and copying everything else
/// found to the same place under `dest`; any other object by one copy to `dest`.
/// When all is copied it has the source removed. A single object that the user
/// chose to delete instead of copying is removed all the same, and the move ends
/// with `Discarded`. A failure while copying, or of the removal of the source, makes
/// the engine remove what it made, last made first, before it ends with the failure.
pub fn move_target(target: &[u8], dest: &[u8], state: MoveState, event: Event) -> (next: (
    MoveState,
    Step<Moved>,
))
    ensures
        (next.0@, next.1@) == move_step(target@, dest@, state@, event@),
{
    let mut state = state;
    match state.phase {
        MovePhase::Start => {
            let mut fresh = MoveState::new();
            fresh.phase = MovePhase::Rename;
            (fresh, Step::Perform(Action::pair(Op::Rename, target, dest)))
        },
        MovePhase::Rename => match event {
            Event::Done => ends(Ok(Moved::Relocated)),
            Event::Failed(_) => match parent(dest) {
                None => ends(Err(Failure::new(ErrorKind::NotFound, Reason::NoParent, dest))),
                Some(dir) => {
                    state.phase = MovePhase::Parent;
                    (state, Step::Perform(Action::new(Op::CreateDirAll, dir.as_slice())))
                },
            },
            _ => ends(Err(Failure::new(ErrorKind::Internal, Reason::Protocol, target))),
        },
        MovePhase::Parent => match event {
            Event::Done => {
                state.phase = MovePhase::Stat;
                (state, Step::Perform(Action::new(Op::Stat, target)))
            },
            Event::Failed(kind) => ends(Err(Failure::new(kind, Reason::CreateParent, dest))),
            _ => ends(Err(Failure::new(ErrorKind::Internal, Reason::Protocol, target))),
        },
        MovePhase::Stat => match event {
            Event::Meta(meta) => {
                let dir = match meta.kind {
                    FileKind::Directory => true,
                    _ => false,
                };
                if dir {
                    state.phase = MovePhase::Walk;
                    (state, Step::Perform(Action::new(Op::Walk, target)))
                } else {
                    let first = copy_file(target, dest, CopyState::Start, Event::Start);
                    let mut created: Vec<Made> = Vec::new();
                    created.push(Made { path: to_owned_bytes(dest), dir: false });
                    assert(made_views(created@) =~= seq![MadeView { path: dest@, dir: false }]);
                    state.phase = MovePhase::Single;
                    state.created = created;
                    state.copy = first.0;
                    (state, relay(first.1))
                }
            },
            Event::Failed(kind) => ends(Err(Failure::new(kind, Reason::Stat, target))),
            _ => ends(Err(Failure::new(ErrorKind::Internal, Reason::Protocol, target))),
        },
        MovePhase::Walk => match event {
            Event::Listing(entries) => {
                state.entries = entries;
                state.index = 0;
                state.created = Vec::new();
                assert(state@.created =~= Seq::<MadeView>::empty());
                advance(target, dest, state)
            },
            Event::Failed(kind) => ends(Err(Failure::new(kind, Reason::Walk, target))),
            _ => ends(Err(Failure::new(ErrorKind::Internal, Reason::Protocol, target))),
        },
        MovePhase::Dir => {
            if state.index >= state.entries.len() || state.created.len() == 0 {
                let fail = Failure::new(ErrorKind::Internal, Reason::Protocol, target);
                return fails(state, fail);
            }
            match event {
                Event::Done => {
                    state.index = state.index + 1;
                    advance(target, dest, state)
                },
                Event::Failed(kind) => {
                    let fail = Failure::pair(
                        kind,
                        Reason::CreateDir,
                        state.entries[state.index].path.as_slice(),
                        state.created[state.created.len() - 1].path.as_slice(),
                    );
                    fails(state, fail)
                },
                _ => {
                    let fail = Failure::new(ErrorKind::Internal, Reason::Protocol, target);
                    fails(state, fail)
                },
            }
        },
        MovePhase::Leaf => {
            if state.index >= state.entries.len() || state.created.len() == 0 {
                let fail = Failure::new(ErrorKind::Internal, Reason::Protocol, target);
                return fails(state, fail);
            }
            let inner = copy_file(
                state.entries[state.index].path.as_slice(),
                state.created[state.created.len() - 1].path.as_slice(),
                state.copy,
                event,
            );
            state.copy = inner.0;
            match inner.1 {
                Step::Perform(action) => (state, Step::Perform(action)),
                Step::Finished(Ok(_)) => {
                    state.index = state.index + 1;
                    advance(target, dest, state)
                },
                Step::Finished(Err(f)) => {
                    let fail = Failure::pair(
                        f.kind,
                        Reason::CopyFile,
                        state.entries[state.index].path.as_slice(),
                        state.created[state.created.len() - 1].path.as_slice(),
                    );
                    fails(state, fail)
                },
            }
        },
        MovePhase::Single => {
            let inner = copy_file(target, dest, state.copy, event);
            state.copy = inner.0;
            match inner.1 {
                Step::Perform(action) => (state, Step::Perform(action)),
                Step::Finished(Ok(copied)) => {
                    state.phase = MovePhase::RemoveFile;
                    state.discarded = match copied {
                        Copied::Discarded => true,
                        Copied::Created => false,
                    };
                    (state, Step::Perform(Action::new(Op::RemoveFile, target)))
                },
                Step::Finished(Err(f)) => {
                    let fail = Failure::pair(f.kind, Reason::CopyFile, target, dest);
                    fails(state, fail)
                },
            }
        },
        MovePhase::RemoveDir => match event {
            Event::Done => ends(Ok(Moved::Relocated)),
            Event::Failed(kind) => {
                let fail = Failure::pair(kind, Reason::RemoveDir, target, dest);
                fails(state, fail)
            },
            _ => {
                let fail = Failure::new(ErrorKind::Internal, Reason::Protocol, target);
                fails(state, fail)
            },
        },
        MovePhase::RemoveFile => match event {
            Event::Done => ends(
                Ok(
                    if state.discarded {
                        Moved::Discarded
                    } else {
                        Moved::Relocated
                    },
                ),
            ),
            Event::Failed(kind) => {
                let fail = Failure::pair(kind, Reason::RemoveFile, target, dest);
                fails(state, fail)
            },
            _ => {
                let fail = Failure::new(ErrorKind::Internal, Reason::Protocol, target);
                fails(state, fail)
            },
        },
        MovePhase::Undo => undo(state),
    }
}

/// What the move engine may ask of the host.
pub open spec fn move_asks(op: Op) -> bool {
    copy_asks(op) || op == Op::Rename || op == Op::CreateDirAll || op == Op::Walk || op
        == Op::RemoveFile || op == Op::RemoveDir || op == Op::RemoveDirAll
}

/// `made` is the place of `entry` under `dest`, and a directory was asked for there
/// exactly if `entry` is one.
pub open spec fn made_for(target: Seq<u8>, dest: Seq<u8>, entry: WalkEntryView, made: MadeView) -> bool {
    rerooted(entry.path, target, dest) == Some(made.path) && made.dir == (entry.kind
        == FileKind::Directory)
}

/// The first `count` entries have their places, in their order, among what was made.
pub open spec fn placed(target: Seq<u8>, dest: Seq<u8>, state: MoveStateView, count: nat) -> bool {
    &&& count <= state.entries.len()
    &&& state.created.len() == count
    &&& forall|j: int|
        0 <= j < count ==> made_for(target, dest, #[trigger] state.entries[j], state.created[j])
}

/// What holds of a move of `target` to `dest` at every step: while a directory is
/// copied, the entries done with and the current one have their places among what
/// was made and nothing else was made; when the source is about to be removed,
/// every entry is done with.
pub open spec fn move_inv(target: Seq<u8>, dest: Seq<u8>, state: MoveStateView) -> bool {
    if state.phase == MovePhase::Dir || state.phase == MovePhase::Leaf {
        state.index < state.entries.len() && placed(target, dest, state, state.index + 1)
    } else if state.phase == MovePhase::RemoveDir {
        state.index == state.entries.len() && placed(target, dest, state, state.index)
    } else if state.phase == MovePhase::Single || state.phase == MovePhase::RemoveFile {
        state.created == seq![MadeView { path: dest, dir: false }]
    } else {
        true
    }
}

/// Where the engine stands after the host has answered its steps with `events`, one
/// after the other, beginning in `start`.
pub open spec fn move_run(
    target: Seq<u8>,
    dest: Seq<u8>,
    start: (MoveStateView, StepView<Moved>),
    events: Seq<EventView>,
) -> (MoveStateView, StepView<Moved>)
    decreases events.len(),
{
    if events.len() == 0 {
        start
    } else {
        move_run(target, dest, move_step(target, dest, start.0, events[0]), events.skip(1))
    }
}

/// The move engine asks the host for nothing but what the copy engine asks, renames,
/// the making of directories, walks and removals.
pub proof fn lemma_move_asks(target: Seq<u8>, dest: Seq<u8>, state: MoveStateView, event: EventView)
    ensures
        move_step(target, dest, state, event).1 matches StepView::Perform(action) ==> move_asks(
            action.op,
        ),
{
    if state.phase == MovePhase::Leaf && state.index < state.entries.len() && state.created.len()
        > 0 {
        lemma_copy_asks(
            state.entries[state.index as int].path,
            state.created.last().path,
            state.copy,
            event,
        );
    }
    if state.phase == MovePhase::Single {
        lemma_copy_asks(target, dest, state.copy, event);
    }
}

/// Taking up the next entry keeps the places made those of the entries taken up.
proof fn lemma_advance_keeps_track(target: Seq<u8>, dest: Seq<u8>, state: MoveStateView)
    requires
        placed(target, dest, state, state.index),
    ensures
        move_inv(target, dest, move_advance(target, dest, state).0),
{
}

/// The engine keeps track of what it makes: whatever the host answers, the places
/// made stay those of the entries taken up so far, in their order.
pub proof fn lemma_move_keeps_track(
    target: Seq<u8>,
    dest: Seq<u8>,
    state: MoveStateView,
    event: EventView,
)
    requires
        move_inv(target, dest, state),
    ensures
        move_inv(target, dest, move_step(target, dest, state, event).0),
{
    if state.phase == MovePhase::Walk {
        if let EventView::Listing(entries) = event {
            lemma_advance_keeps_track(
                target,
                dest,
                MoveStateView { entries, index: 0, created: Seq::<MadeView>::empty(), ..state },
            );
        }
    } else if state.phase == MovePhase::Dir {
        if event == EventView::Done {
            lemma_advance_keeps_track(target, dest, move_past(state));
        }
    } else if state.phase == MovePhase::Leaf {
        let source = state.entries[state.index as int].path;
        let place = state.created.last().path;
        let inner = copy_step(source, place, state.copy, event);
        if let StepView::Finished(Ok(_)) = inner.1 {
            lemma_advance_keeps_track(
                target,
                dest,
                move_past(MoveStateView { copy: inner.0, ..state }),
            );
        }
    }
}

/// The source, if it is a directory, is removed last: when the engine asks for
/// its removal, every entry that the walk listed is done with and has its place
/// among what was made.
pub proof fn lemma_source_removed_last(
    target: Seq<u8>,
    dest: Seq<u8>,
    state: MoveStateView,
    event: EventView,
)
    requires
        move_inv(target, dest, state),
        move_step(target, dest, state, event).1 matches StepView::Perform(action) && action.op
            == Op::RemoveDirAll,
    ensures
        ({
            let next = move_step(target, dest, state, event);
            &&& next.1 == StepView::<Moved>::Perform(request(Op::RemoveDirAll, target))
            &&& next.0.phase == MovePhase::RemoveDir
            &&& next.0.index == next.0.entries.len()
            &&& placed(target, dest, next.0, next.0.entries.len())
        }),
{
    lemma_move_keeps_track(target, dest, state, event);
    if state.phase == MovePhase::Leaf && state.index < state.entries.len() && state.created.len()
        > 0 {
        lemma_copy_asks(
            state.entries[state.index as int].path,
            state.created.last().path,
            state.copy,
            event,
        );
    }
    if state.phase == MovePhase::Single {
        lemma_copy_asks(target, dest, state.copy, event);
    }
}

/// A move that fails takes away all that it made: whatever the host answers, the
/// engine asks for the removal of each place made, the last made first, and only
/// then ends with the failure.
pub proof fn lemma_failure_undoes_all(
    target: Seq<u8>,
    dest: Seq<u8>,
    state: MoveStateView,
    fail: FailureView,
    events: Seq<EventView>,
)
    requires
        events.len() <= state.created.len(),
    ensures
        ({
            let end = move_run(target, dest, move_fails(state, fail), events);
            if events.len() < state.created.len() {
                end.1 == StepView::<Moved>::Perform(
                    removal(state.created[state.created.len() - 1 - events.len()]),
                )
            } else {
                end.1 == StepView::<Moved>::Finished(Err(fail))
            }
        }),
    decreases events.len(),
{
    if events.len() > 0 {
        let failing = MoveStateView { failure: Some(fail), ..state };
        let undone = move_undo(failing);
        lemma_failure_undoes_all(target, dest, undone.0, fail, events.skip(1));
    }
}

/// A move reports success only when the host has reported the success of the
/// rename, or of the removal of the source after all was copied.
pub proof fn lemma_success_follows_removal(
    target: Seq<u8>,
    dest: Seq<u8>,
    state: MoveStateView,
    event: EventView,
    moved: Moved,
)
    requires
        move_step(target, dest, state, event).1 == StepView::<Moved>::Finished(Ok(moved)),
    ensures
        event == EventView::Done,
        state.phase == MovePhase::Rename || state.phase == MovePhase::RemoveDir || state.phase
            == MovePhase::RemoveFile,
        moved == Moved::Discarded <==> state.phase == MovePhase::RemoveFile && state.discarded,
{
}

/// While a directory is copied, whatever the engine has the host write lies at the
/// place of the entry that is being copied, and a copy by content is taken from that
/// entry.
pub proof fn lemma_written_at_the_place_of_the_entry(
    target: Seq<u8>,
    dest: Seq<u8>,
    state: MoveStateView,
    event: EventView,
)
    requires
        move_inv(target, dest, state),
        state.phase == MovePhase::Leaf,
    ensures
        ({
            let entry = state.entries[state.index as int];
            let place = rerooted(entry.path, target, dest);
            move_step(target, dest, state, event).1 matches StepView::Perform(action) ==> {
                &&& action.op == Op::CopyFile ==> action.path == entry.path && place == Some(
                    action.other,
                )
                &&& action.op == Op::Symlink ==> place == Some(action.other)
                &&& action.op == Op::MakeFifo ==> place == Some(action.path)
                &&& action.op == Op::WriteMarker ==> place == Some(action.path)
            }
        }),
{
}

/// How far the move is from the listing of the source: the phases before it follow
/// each other and none comes twice.
pub open spec fn move_stage(phase: MovePhase) -> nat {
    match phase {
        MovePhase::Start => 5,
        MovePhase::Rename => 4,
        MovePhase::Parent => 3,
        MovePhase::Stat => 2,
        MovePhase::Walk => 1,
        _ => 0,
    }
}

/// How many actions a move in `state` may still ask for at most, once the listing of
/// the source is known: eight for each entry not yet done with, and one for each
/// place made, which a failure would have removed.
pub open spec fn move_rank(state: MoveStateView) -> nat {
    let left: nat = if state.index < state.entries.len() {
        (8 * (state.entries.len() - state.index)) as nat
    } else {
        0
    };
    match state.phase {
        MovePhase::Dir => left + state.created.len() + 7,
        MovePhase::Leaf => left + state.created.len() + copy_rank(state.copy),
        MovePhase::Single => state.created.len() + 2 + copy_rank(state.copy),
        MovePhase::RemoveDir => state.created.len() + 2,
        MovePhase::RemoveFile => state.created.len() + 2,
        MovePhase::Undo => state.created.len() + 1,
        _ => 0,
    }
}

/// Every move comes to an end: whatever the host answers, each action that the
/// engine asks for brings it nearer to the listing of the source or, after that,
/// leaves it fewer actions to ask for.
pub proof fn lemma_move_comes_to_an_end(
    target: Seq<u8>,
    dest: Seq<u8>,
    state: MoveStateView,
    event: EventView,
)
    ensures
        ({
            let next = move_step(target, dest, state, event);
            next.1 is Perform ==> move_stage(next.0.phase) < move_stage(state.phase) || (
            move_stage(next.0.phase) == move_stage(state.phase) && move_rank(next.0) < move_rank(
                state,
            ))
        }),
{
    if state.phase == MovePhase::Leaf && state.index < state.entries.len() && state.created.len()
        > 0 {
        lemma_copy_comes_to_an_end(
            state.entries[state.index as int].path,
            state.created.last().path,
            state.copy,
            event,
        );
    }
    if state.phase == MovePhase::Single {
        lemma_copy_comes_to_an_end(target, dest, state.copy, event);
    }
}

/// Nothing that the move has made is left to be removed: the move has not come to
/// make anything yet, or it has asked for the removal of all that it made.
pub open spec fn nothing_made(state: MoveStateView) -> bool {
    state.phase == MovePhase::Rename || state.phase == MovePhase::Parent || state.phase
        == MovePhase::Stat || state.phase == MovePhase::Walk || state.created.len() == 0
}

/// A move that fails leaves nothing at the destination: the engine ends with a
/// failure only when it has made nothing yet or has asked for the removal of every
/// place that it made. That holds of a failure while copying and of a failure to
/// remove the source when all is copied.
pub proof fn lemma_failure_leaves_nothing(
    target: Seq<u8>,
    dest: Seq<u8>,
    state: MoveStateView,
    event: EventView,
    fail: FailureView,
)
    requires
        move_step(target, dest, state, event).1 == StepView::<Moved>::Finished(Err(fail)),
    ensures
        nothing_made(state),
{
}

/// A source that cannot be removed when all is copied is left with what the host
/// has left of it, and the copy is taken away: the engine asks for the removal of
/// the place made last and, when every place made has been asked to be removed,
/// ends with the failure of the removal.
pub proof fn lemma_source_that_stays_undoes_copy(
    target: Seq<u8>,
    dest: Seq<u8>,
    state: MoveStateView,
    kind: ErrorKind,
    events: Seq<EventView>,
)
    requires
        state.phase == MovePhase::RemoveDir || state.phase == MovePhase::RemoveFile,
        events.len() <= state.created.len(),
    ensures
        ({
            let fail = failure_pair(
                kind,
                if state.phase == MovePhase::RemoveDir {
                    Reason::RemoveDir
                } else {
                    Reason::RemoveFile
                },
                target,
                dest,
            );
            let end = move_run(
                target,
                dest,
                move_step(target, dest, state, EventView::Failed(kind)),
                events,
            );
            if events.len() < state.created.len() {
                end.1 == StepView::<Moved>::Perform(
                    removal(state.created[state.created.len() - 1 - events.len()]),
                )
            } else {
                end.1 == StepView::<Moved>::Finished(Err(fail))
            }
        }),
{
    let fail = failure_pair(
        kind,
        if state.phase == MovePhase::RemoveDir {
            Reason::RemoveDir
        } else {
            Reason::RemoveFile
        },
        target,
        dest,
    );
    lemma_failure_undoes_all(target, dest, state, fail, events);
}

} // verus!
