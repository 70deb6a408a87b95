//! The burial of one target: it is found, brought into canonical form, shown to the
//! user if that was asked for, given a free place in the graveyard, moved there, and
//! written into the record.
//!
//! A target that lies in the graveyard already is not buried again: the user is
//! asked whether to unlink it for good. A target whose path, or whose grave's path,
//! could not stand in the record is refused before anything is moved.

use crate::copy::CopyState;
use crate::host::{
    failure, failure_pair, relay, relayed, request, request_pair, Action, ErrorKind, Event,
    EventView, Failure, FailureView, FileKind, FileMeta, Op, Reason, Step, StepView,
};
use crate::inspect::{
    do_inspection, inspect_fresh, inspect_step, lemma_inspect_asks, InspectState,
    InspectStateView, Inspected,
};
use crate::path::{
    candidate, grave_mapping, is_under, join_absolute, joined, lemma_candidate_bytes,
    lemma_grave_inside_graveyard, rename_grave, resolve, resolved, resolves_to, starts_with,
    to_owned_bytes,
};
use crate::record::{
    entry_line, is_recordable, record_name, record_path, recordable, Entry, RecordItem,
    DELIMITER, LINE_END,
};
use crate::relocate::{
    lemma_failure_leaves_nothing, lemma_move_asks, move_fresh, move_step, move_target,
    nothing_made, MadeView, MovePhase, MoveState, MoveStateView, Moved,
};
use vstd::prelude::*;

verus! {

/// What became of a target.
#[derive(Clone, Copy, Debug, PartialEq, Eq, Structural)]
pub enum Buried {
    /// It rests in the graveyard and stands in the record.
    Buried,
    /// It was too big to copy and the user chose to delete it for good: it is gone
    /// and nothing stands in the record.
    Discarded,
    /// It lay in the graveyard and the user chose to unlink it for good.
    Unlinked,
    /// It lay in the graveyard and the user chose to leave it there.
    Skipped,
    /// The user saw it and chose not to bury it.
    Declined,
}

/// What the burial is waiting for.
#[derive(Clone, Copy, Debug, PartialEq, Eq, Structural)]
pub enum BuryPhase {
    /// Nothing was asked yet.
    Start,
    /// The stat of the target.
    Stat,
    /// The canonical form of the target's path.
    Canonicalize,
    /// A step of the inspection.
    Inspect,
    /// The answer to whether a target in the graveyard is to be unlinked.
    Unlink,
    /// The removal of the target as a directory.
    UnlinkDir,
    /// The removal of the target as a file.
    UnlinkFile,
    /// The delivery of the word that the target is skipped.
    Skipping,
    /// The answer to whether the place tried last is taken.
    Probe,
    /// A step of the move.
    Move,
    /// The writing of the record's line.
    Append,
}

/// How far a burial has come.
#[derive(Debug, PartialEq, Eq)]
pub struct BuryState {
    pub phase: BuryPhase,
    /// What the stat of the target told.
    pub meta: FileMeta,
    /// The path under which the target is moved and recorded.
    pub source: Vec<u8>,
    /// The target's place in the graveyard; once a free place is found, that place.
    pub dest: Vec<u8>,
    /// The number of the alternate name tried last.
    pub attempt: u64,
    pub inspect: InspectState,
    pub mover: MoveState,
}

/// How far a burial has come, as a value of the model.
pub struct BuryStateView {
    pub phase: BuryPhase,
    pub meta: FileMeta,
    pub source: Seq<u8>,
    pub dest: Seq<u8>,
    pub attempt: u64,
    pub inspect: InspectStateView,
    pub mover: MoveStateView,
}

impl View for BuryState {
    type V = BuryStateView;

    open spec fn view(&self) -> BuryStateView {
        BuryStateView {
            phase: self.phase,
            meta: self.meta,
            source: self.source@,
            dest: self.dest@,
            attempt: self.attempt,
            inspect: self.inspect@,
            mover: self.mover@,
        }
    }
}

/// The state of a burial of which nothing was asked yet.
pub open spec fn bury_fresh() -> BuryStateView {
    BuryStateView {
        phase: BuryPhase::Start,
        meta: FileMeta { kind: FileKind::Other, size: 0, mode: 0 },
        source: Seq::<u8>::empty(),
        dest: Seq::<u8>::empty(),
        attempt: 0,
        inspect: inspect_fresh(),
        mover: move_fresh(),
    }
}

/// The end of a burial with `result`.
pub open spec fn bury_ends(result: Result<Buried, FailureView>) -> (
    BuryStateView,
    StepView<Buried>,
) {
    (bury_fresh(), StepView::Finished(result))
}

/// The source is known and, if that was asked for, accepted by the user: a source in
/// the graveyard leads to the question whether to unlink it, a source that cannot be
/// recorded ends the burial, any other leads to the search for a free place.
pub open spec fn bury_placed(graveyard: Seq<u8>, state: BuryStateView) -> (
    BuryStateView,
    StepView<Buried>,
) {
    let grave = grave_mapping(graveyard, state.source);
    if is_under(state.source, graveyard) {
        (
            BuryStateView { phase: BuryPhase::Unlink, ..state },
            StepView::Perform(request(Op::ConfirmUnlink, state.source)),
        )
    } else if !recordable(state.source) {
        bury_ends(Err(failure(ErrorKind::InvalidInput, Reason::Unrecordable, state.source)))
    } else if !recordable(grave) {
        bury_ends(Err(failure(ErrorKind::InvalidInput, Reason::Unrecordable, grave)))
    } else {
        (
            BuryStateView { phase: BuryPhase::Probe, dest: grave, attempt: 0, ..state },
            StepView::Perform(request(Op::Exists, candidate(grave, 0))),
        )
    }
}

/// The source is known: it is shown to the user if `inspect` is set, and placed
/// otherwise.
pub open spec fn bury_sourced(
    target: Seq<u8>,
    graveyard: Seq<u8>,
    inspect: bool,
    state: BuryStateView,
) -> (BuryStateView, StepView<Buried>) {
    if inspect {
        let first = inspect_step(
            target,
            state.source,
            state.meta,
            inspect_fresh(),
            EventView::Start,
        );
        (
            BuryStateView { phase: BuryPhase::Inspect, inspect: first.0, ..state },
            relayed(first.1),
        )
    } else {
        bury_placed(graveyard, state)
    }
}

/// What the burial of `target`, named as seen from `cwd`, in `graveyard` does next,
/// in `state`, when `event` comes in.
pub open spec fn bury_step(
    target: Seq<u8>,
    graveyard: Seq<u8>,
    cwd: Seq<u8>,
    inspect: bool,
    state: BuryStateView,
    event: EventView,
) -> (BuryStateView, StepView<Buried>) {
    match state.phase {
        BuryPhase::Start => (
            BuryStateView { phase: BuryPhase::Stat, ..bury_fresh() },
            StepView::Perform(request(Op::Stat, resolved(cwd, target))),
        ),
        BuryPhase::Stat => match event {
            EventView::Meta(meta) => if meta.kind == FileKind::Symlink {
                bury_sourced(
                    target,
                    graveyard,
                    inspect,
                    BuryStateView { meta, source: resolved(cwd, target), ..state },
                )
            } else {
                (
                    BuryStateView { phase: BuryPhase::Canonicalize, meta, ..state },
                    StepView::Perform(request(Op::Canonicalize, resolved(cwd, target))),
                )
            },
            EventView::Failed(_) => bury_ends(
                Err(failure(ErrorKind::NotFound, Reason::NoSuchTarget, target)),
            ),
            _ => bury_ends(Err(failure(ErrorKind::Internal, Reason::Protocol, target))),
        },
        BuryPhase::Canonicalize => match event {
            EventView::Text(source) => bury_sourced(
                target,
                graveyard,
                inspect,
                BuryStateView { source, ..state },
            ),
            EventView::Failed(kind) => bury_ends(
                Err(failure(kind, Reason::Canonicalize, target)),
            ),
            _ => bury_ends(Err(failure(ErrorKind::Internal, Reason::Protocol, target))),
        },
        BuryPhase::Inspect => {
            let inner = inspect_step(target, state.source, state.meta, state.inspect, event);
            let state = BuryStateView { inspect: inner.0, ..state };
            match inner.1 {
                StepView::Perform(action) => (state, StepView::Perform(action)),
                StepView::Finished(Ok(Inspected::Accepted)) => bury_placed(graveyard, state),
                StepView::Finished(Ok(Inspected::Declined)) => bury_ends(Ok(Buried::Declined)),
                StepView::Finished(Err(f)) => bury_ends(Err(f)),
            }
        },
        BuryPhase::Unlink => match event {
            EventView::Answer(yes) => if yes {
                (
                    BuryStateView { phase: BuryPhase::UnlinkDir, ..state },
                    StepView::Perform(request(Op::RemoveDirAll, state.source)),
                )
            } else {
                (
                    BuryStateView { phase: BuryPhase::Skipping, ..state },
                    StepView::Perform(request(Op::TellSkipping, state.source)),
                )
            },
            EventView::Failed(kind) => bury_ends(
                Err(failure(kind, Reason::Prompt, state.source)),
            ),
            _ => bury_ends(Err(failure(ErrorKind::Internal, Reason::Protocol, target))),
        },
        BuryPhase::UnlinkDir => match event {
            EventView::Done => bury_ends(Ok(Buried::Unlinked)),
            EventView::Failed(_) => (
                BuryStateView { phase: BuryPhase::UnlinkFile, ..state },
                StepView::Perform(request(Op::RemoveFile, state.source)),
            ),
            _ => bury_ends(Err(failure(ErrorKind::Internal, Reason::Protocol, target))),
        },
        BuryPhase::UnlinkFile => match event {
            EventView::Done => bury_ends(Ok(Buried::Unlinked)),
            EventView::Failed(kind) => bury_ends(
                Err(failure(kind, Reason::Unlink, state.source)),
            ),
            _ => bury_ends(Err(failure(ErrorKind::Internal, Reason::Protocol, target))),
        },
        BuryPhase::Skipping => match event {
            EventView::Done => bury_ends(Ok(Buried::Skipped)),
            EventView::Failed(kind) => bury_ends(Err(failure(kind, Reason::Tell, state.source))),
            _ => bury_ends(Err(failure(ErrorKind::Internal, Reason::Protocol, target))),
        },
        BuryPhase::Probe => match event {
            EventView::Answer(taken) => if !taken {
                let place = candidate(state.dest, state.attempt as nat);
                let first = move_step(state.source, place, move_fresh(), EventView::Start);
                (
                    BuryStateView {
                        phase: BuryPhase::Move,
                        dest: place,
                        mover: first.0,
                        ..state
                    },
                    relayed(first.1),
                )
            } else if state.attempt < u64::MAX {
                (
                    BuryStateView { attempt: (state.attempt + 1) as u64, ..state },
                    StepView::Perform(
                        request(Op::Exists, candidate(state.dest, (state.attempt + 1) as nat)),
                    ),
                )
            } else {
                bury_ends(Err(failure(ErrorKind::Internal, Reason::NoFreeName, state.dest)))
            },
            _ => bury_ends(Err(failure(ErrorKind::Internal, Reason::Protocol, target))),
        },
        BuryPhase::Move => {
            let inner = move_step(state.source, state.dest, state.mover, event);
            let state = BuryStateView { mover: inner.0, ..state };
            match inner.1 {
                StepView::Perform(action) => (state, StepView::Perform(action)),
                StepView::Finished(Ok(Moved::Relocated)) => (
                    BuryStateView { phase: BuryPhase::Append, ..state },
                    StepView::Perform(
                        request_pair(
                            Op::AppendRecord,
                            joined(graveyard, record_name()),
                            entry_line(Entry { orig: state.source, dest: state.dest }),
                        ),
                    ),
                ),
                StepView::Finished(Ok(Moved::Discarded)) => bury_ends(Ok(Buried::Discarded)),
                StepView::Finished(Err(f)) => bury_ends(Err(f)),
            }
        },
        BuryPhase::Append => match event {
            EventView::Done => bury_ends(Ok(Buried::Buried)),
            EventView::Failed(kind) => bury_ends(
                Err(failure(kind, Reason::Record, joined(graveyard, record_name()))),
            ),
            _ => bury_ends(Err(failure(ErrorKind::Internal, Reason::Protocol, target))),
        },
    }
}

impl BuryState {
    /// The state of a burial of which nothing was asked yet.
    pub fn new() -> (state: BuryState)
        ensures
            state@ == bury_fresh(),
    {
        BuryState {
            phase: BuryPhase::Start,
            meta: FileMeta { kind: FileKind::Other, size: 0, mode: 0 },
            source: Vec::new(),
            dest: Vec::new(),
            attempt: 0,
            inspect: InspectState::new(),
            mover: MoveState::new(),
        }
    }
}

fn ends(result: Result<Buried, Failure>) -> (next: (BuryState, Step<Buried>))
    ensures
        (next.0@, next.1@) == bury_ends(
            match result {
                Ok(v) => Ok(v),
                Err(f) => Err(f@),
            },
        ),
{
    (BuryState::new(), Step::Finished(result))
}

fn placed(graveyard: &[u8], state: BuryState) -> (next: (BuryState, Step<Buried>))
    ensures
        (next.0@, next.1@) == bury_placed(graveyard@, state@),
{
    let mut state = state;
    if starts_with(state.source.as_slice(), graveyard) {
        let action = Action::new(Op::ConfirmUnlink, state.source.as_slice());
        state.phase = BuryPhase::Unlink;
        return (state, Step::Perform(action));
    }
    if !is_recordable(state.source.as_slice()) {
        return ends(
            Err(
                Failure::new(
                    ErrorKind::InvalidInput,
                    Reason::Unrecordable,
                    state.source.as_slice(),
                ),
            ),
        );
    }
    let grave = join_absolute(graveyard, state.source.as_slice());
    if !is_recordable(grave.as_slice()) {
        return ends(
            Err(Failure::new(ErrorKind::InvalidInput, Reason::Unrecordable, grave.as_slice())),
        );
    }
    let action = Action::new(Op::Exists, grave.as_slice());
    state.phase = BuryPhase::Probe;
    state.dest = grave;
    state.attempt = 0;
    (state, Step::Perform(action))
}

fn sourced(target: &[u8], graveyard: &[u8], inspect: bool, state: BuryState) -> (next: (
    BuryState,
    Step<Buried>,
))
    ensures
        (next.0@, next.1@) == bury_sourced(target@, graveyard@, inspect, state@),
{
    let mut state = state;
    if inspect {
        let first = do_inspection(
            target,
            state.source.as_slice(),
            state.meta,
            InspectState::new(),
            Event::Start,
        );
        state.phase = BuryPhase::Inspect;
        state.inspect = first.0;
        (state, relay(first.1))
    } else {
        placed(graveyard, state)
    }
}

/// One step of the burial of `target`, named as seen from `cwd`, in `graveyard`;
/// `inspect` says whether the target is shown to the user first.
///
/// A target that cannot be found fails with `NotFound`. A target that is no link is
/// brought into canonical form; a link is taken as it is named. A target in the
/// graveyard is unlinked for good or skipped, as the user says. Any other target is
/// moved to the first of its places in the graveyard that is free, and a line for it
/// is added to the record only when the move has ended with `Relocated`.
pub fn bury_target(
    target: &[u8],
    graveyard: &[u8],
    cwd: &[u8],
    inspect: bool,
    state: BuryState,
    event: Event,
) -> (next: (BuryState, Step<Buried>))
    ensures
        (next.0@, next.1@) == bury_step(target@, graveyard@, cwd@, inspect, state@, event@),
{
    let mut state = state;
    match state.phase {
        BuryPhase::Start => {
            let mut fresh = BuryState::new();
            fresh.phase = BuryPhase::Stat;
            let path = resolve(cwd, target);
            (fresh, Step::Perform(Action::new(Op::Stat, path.as_slice())))
        },
        BuryPhase::Stat => match event {
            Event::Meta(meta) => {
                let link = match meta.kind {
                    FileKind::Symlink => true,
                    _ => false,
                };
                state.meta = meta;
                if link {
                    state.source = resolve(cwd, target);
                    sourced(target, graveyard, inspect, state)
                } else {
                    state.phase = BuryPhase::Canonicalize;
                    let path = resolve(cwd, target);
                    (state, Step::Perform(Action::new(Op::Canonicalize, path.as_slice())))
                }
            },
            Event::Failed(_) => ends(
                Err(Failure::new(ErrorKind::NotFound, Reason::NoSuchTarget, target)),
            ),
            _ => ends(Err(Failure::new(ErrorKind::Internal, Reason::Protocol, target))),
        },
        BuryPhase::Canonicalize => match event {
            Event::Text(source) => {
                state.source = source;
                sourced(target, graveyard, inspect, state)
            },
            Event::Failed(kind) => ends(Err(Failure::new(kind, Reason::Canonicalize, target))),
            _ => ends(Err(Failure::new(ErrorKind::Internal, Reason::Protocol, target))),
        },
        BuryPhase::Inspect => {
            let mut inspect_state = InspectState::new();
            std::mem::swap(&mut inspect_state, &mut state.inspect);
            let inner = do_inspection(
                target,
                state.source.as_slice(),
                state.meta,
                inspect_state,
                event,
            );
            state.inspect = inner.0;
            match inner.1 {
                Step::Perform(action) => (state, Step::Perform(action)),
                Step::Finished(Ok(Inspected::Accepted)) => placed(graveyard, state),
                Step::Finished(Ok(Inspected::Declined)) => ends(Ok(Buried::Declined)),
                Step::Finished(Err(f)) => ends(Err(f)),
            }
        },
        BuryPhase::Unlink => match event {
            Event::Answer(yes) => {
                if yes {
                    let action = Action::new(Op::RemoveDirAll, state.source.as_slice());
                    state.phase = BuryPhase::UnlinkDir;
                    (state, Step::Perform(action))
                } else {
                    let action = Action::new(Op::TellSkipping, state.source.as_slice());
                    state.phase = BuryPhase::Skipping;
                    (state, Step::Perform(action))
                }
            },
            Event::Failed(kind) => ends(
                Err(Failure::new(kind, Reason::Prompt, state.source.as_slice())),
            ),
            _ => ends(Err(Failure::new(ErrorKind::Internal, Reason::Protocol, target))),
        },
        BuryPhase::UnlinkDir => match event {
            Event::Done => ends(Ok(Buried::Unlinked)),
            Event::Failed(_) => {
                let action = Action::new(Op::RemoveFile, state.source.as_slice());
                state.phase = BuryPhase::UnlinkFile;
                (state, Step::Perform(action))
            },
            _ => ends(Err(Failure::new(ErrorKind::Internal, Reason::Protocol, target))),
        },
        BuryPhase::UnlinkFile => match event {
            Event::Done => ends(Ok(Buried::Unlinked)),
            Event::Failed(kind) => ends(
                Err(Failure::new(kind, Reason::Unlink, state.source.as_slice())),
            ),
            _ => ends(Err(Failure::new(ErrorKind::Internal, Reason::Protocol, target))),
        },
        BuryPhase::Skipping => match event {
            Event::Done => ends(Ok(Buried::Skipped)),
            Event::Failed(kind) => ends(
                Err(Failure::new(kind, Reason::Tell, state.source.as_slice())),
            ),
            _ => ends(Err(Failure::new(ErrorKind::Internal, Reason::Protocol, target))),
        },
        BuryPhase::Probe => match event {
            Event::Answer(taken) => {
                if !taken {
                    let place = rename_grave(state.dest.as_slice(), state.attempt);
                    let first = move_target(
                        state.source.as_slice(),
                        place.as_slice(),
                        MoveState::new(),
                        Event::Start,
                    );
                    state.phase = BuryPhase::Move;
                    state.dest = place;
                    state.mover = first.0;
                    (state, relay(first.1))
                } else if state.attempt < u64::MAX {
                    state.attempt = state.attempt + 1;
                    let place = rename_grave(state.dest.as_slice(), state.attempt);
                    (state, Step::Perform(Action::new(Op::Exists, place.as_slice())))
                } else {
                    ends(
                        Err(
                            Failure::new(
                                ErrorKind::Internal,
                                Reason::NoFreeName,
                                state.dest.as_slice(),
                            ),
                        ),
                    )
                }
            },
            _ => ends(Err(Failure::new(ErrorKind::Internal, Reason::Protocol, target))),
        },
        BuryPhase::Move => {
            let mut mover = MoveState::new();
            std::mem::swap(&mut mover, &mut state.mover);
            let inner = move_target(
                state.source.as_slice(),
                state.dest.as_slice(),
                mover,
                event,
            );
            state.mover = inner.0;
            match inner.1 {
                Step::Perform(action) => (state, Step::Perform(action)),
                Step::Finished(Ok(Moved::Relocated)) => {
                    let item = RecordItem {
                        orig: to_owned_bytes(state.source.as_slice()),
                        dest: to_owned_bytes(state.dest.as_slice()),
                    };
                    let line = item.line();
                    let file = record_path(graveyard);
                    state.phase = BuryPhase::Append;
                    (
                        state,
                        Step::Perform(
                            Action::pair(Op::AppendRecord, file.as_slice(), line.as_slice()),
                        ),
                    )
                },
                Step::Finished(Ok(Moved::Discarded)) => ends(Ok(Buried::Discarded)),
                Step::Finished(Err(f)) => ends(Err(f)),
            }
        },
        BuryPhase::Append => match event {
            Event::Done => ends(Ok(Buried::Buried)),
            Event::Failed(kind) => {
                let file = record_path(graveyard);
                ends(Err(Failure::new(kind, Reason::Record, file.as_slice())))
            },
            _ => ends(Err(Failure::new(ErrorKind::Internal, Reason::Protocol, target))),
        },
    }
}

/// What holds of a burial in `graveyard` at every step: once a place is looked for,
/// the source can stand in the record and the place is that of the source in the
/// graveyard, under one of its names, and can stand in the record too.
pub open spec fn bury_inv(graveyard: Seq<u8>, state: BuryStateView) -> bool {
    if state.phase == BuryPhase::Probe {
        &&& recordable(state.source)
        &&& recordable(state.dest)
        &&& state.dest == grave_mapping(graveyard, state.source)
    } else if state.phase == BuryPhase::Move || state.phase == BuryPhase::Append {
        &&& recordable(state.source)
        &&& recordable(state.dest)
        &&& exists|n: nat| state.dest == candidate(grave_mapping(graveyard, state.source), n)
    } else {
        true
    }
}

/// Where the burial stands when a host in which exactly the paths in `occupied` are
/// taken has answered up to `tries` further questions after the one that is open.
pub open spec fn bury_probes(
    target: Seq<u8>,
    graveyard: Seq<u8>,
    cwd: Seq<u8>,
    inspect: bool,
    state: BuryStateView,
    occupied: Set<Seq<u8>>,
    tries: nat,
) -> (BuryStateView, StepView<Buried>)
    decreases tries,
{
    let taken = occupied.contains(candidate(state.dest, state.attempt as nat));
    let next = bury_step(target, graveyard, cwd, inspect, state, EventView::Answer(taken));
    if tries == 0 || !taken {
        next
    } else {
        bury_probes(target, graveyard, cwd, inspect, next.0, occupied, (tries - 1) as nat)
    }
}

/// Whatever the host answers, the place of a burial stays that of its source in the
/// graveyard.
pub proof fn lemma_bury_keeps_place(
    target: Seq<u8>,
    graveyard: Seq<u8>,
    cwd: Seq<u8>,
    inspect: bool,
    state: BuryStateView,
    event: EventView,
)
    requires
        bury_inv(graveyard, state),
    ensures
        bury_inv(graveyard, bury_step(target, graveyard, cwd, inspect, state, event).0),
{
    let next = bury_step(target, graveyard, cwd, inspect, state, event).0;
    let grave = grave_mapping(graveyard, next.source);
    if next.phase == BuryPhase::Move || next.phase == BuryPhase::Append {
        if state.phase == BuryPhase::Probe {
            lemma_candidate_bytes(state.dest, state.attempt as nat, DELIMITER);
            lemma_candidate_bytes(state.dest, state.attempt as nat, LINE_END);
            assert(next.dest == candidate(grave, state.attempt as nat));
        } else {
            let n = choose|n: nat| state.dest == candidate(grave, n);
            assert(next.dest == candidate(grave, n));
        }
    }
}

/// A line is added to the record only for what has been moved: the engine asks for
/// it only when the move has just ended with `Relocated`, the line is that of the
/// source and its grave, both can stand in the record, and the grave lies in the
/// graveyard.
pub proof fn lemma_entry_only_after_move(
    target: Seq<u8>,
    graveyard: Seq<u8>,
    cwd: Seq<u8>,
    inspect: bool,
    state: BuryStateView,
    event: EventView,
)
    requires
        bury_inv(graveyard, state),
        bury_step(target, graveyard, cwd, inspect, state, event).1 matches StepView::Perform(
            action,
        ) && action.op == Op::AppendRecord,
    ensures
        state.phase == BuryPhase::Move,
        move_step(state.source, state.dest, state.mover, event).1 == StepView::<Moved>::Finished(
            Ok(Moved::Relocated),
        ),
        bury_step(target, graveyard, cwd, inspect, state, event).1 == StepView::<Buried>::Perform(
            request_pair(
                Op::AppendRecord,
                joined(graveyard, record_name()),
                entry_line(Entry { orig: state.source, dest: state.dest }),
            ),
        ),
        recordable(state.source),
        recordable(state.dest),
        is_under(state.dest, graveyard),
{
    lemma_inspect_asks(target, state.source, state.meta, state.inspect, event);
    lemma_inspect_asks(target, state.source, state.meta, inspect_fresh(), EventView::Start);
    lemma_move_asks(state.source, state.dest, state.mover, event);
    lemma_move_asks(
        state.source,
        candidate(state.dest, state.attempt as nat),
        move_fresh(),
        EventView::Start,
    );
    let n = choose|n: nat| state.dest == candidate(grave_mapping(graveyard, state.source), n);
    lemma_grave_inside_graveyard(graveyard, state.source, n);
}

/// A target that lies in the graveyard is never moved and never recorded: the user
/// is asked; on yes its removal as a directory is asked for, and as a file if that
/// fails, and the burial ends with `Unlinked`; on no the user is told that it is
/// skipped.
pub proof fn lemma_target_in_graveyard(
    target: Seq<u8>,
    graveyard: Seq<u8>,
    cwd: Seq<u8>,
    inspect: bool,
    state: BuryStateView,
    kind: ErrorKind,
)
    requires
        is_under(state.source, graveyard),
    ensures
        ({
            let asked = bury_placed(graveyard, state);
            let agreed = bury_step(target, graveyard, cwd, inspect, asked.0, EventView::Answer(true));
            let no_dir = bury_step(target, graveyard, cwd, inspect, agreed.0, EventView::Failed(kind));
            let declined = bury_step(
                target,
                graveyard,
                cwd,
                inspect,
                asked.0,
                EventView::Answer(false),
            );
            &&& asked.1 == StepView::<Buried>::Perform(request(Op::ConfirmUnlink, state.source))
            &&& agreed.1 == StepView::<Buried>::Perform(request(Op::RemoveDirAll, state.source))
            &&& bury_step(target, graveyard, cwd, inspect, agreed.0, EventView::Done)
                == bury_ends(Ok(Buried::Unlinked))
            &&& no_dir.1 == StepView::<Buried>::Perform(request(Op::RemoveFile, state.source))
            &&& bury_step(target, graveyard, cwd, inspect, no_dir.0, EventView::Done)
                == bury_ends(Ok(Buried::Unlinked))
            &&& declined.1 == StepView::<Buried>::Perform(
                request(Op::TellSkipping, state.source),
            )
            &&& bury_step(target, graveyard, cwd, inspect, declined.0, EventView::Done)
                == bury_ends(Ok(Buried::Skipped))
        }),
{
}

/// A single file that is too big is never copied to its grave and never recorded.
/// While it is being buried across filesystems and the question is open, a yes
/// makes the engine ask for the removal of the source and then end with
/// `Discarded`. A no makes it ask for the removal of what may stand at the grave,
/// though it asked for nothing to be made there, and then end with a failure
/// whatever comes of that; the source is not touched. Neither way does it ask for a
/// line in the record.
pub proof fn lemma_big_file_never_recorded(
    target: Seq<u8>,
    graveyard: Seq<u8>,
    cwd: Seq<u8>,
    inspect: bool,
    state: BuryStateView,
    event: EventView,
)
    requires
        state.phase == BuryPhase::Move,
        state.mover.phase == MovePhase::Single,
        state.mover.copy == CopyState::BigFile,
        state.mover.created == seq![MadeView { path: state.dest, dir: false }],
    ensures
        ({
            let removing = bury_step(
                target,
                graveyard,
                cwd,
                inspect,
                state,
                EventView::Answer(true),
            );
            let refused = bury_step(
                target,
                graveyard,
                cwd,
                inspect,
                state,
                EventView::Answer(false),
            );
            &&& removing.1 == StepView::<Buried>::Perform(request(Op::RemoveFile, state.source))
            &&& bury_step(target, graveyard, cwd, inspect, removing.0, EventView::Done)
                == bury_ends(Ok(Buried::Discarded))
            &&& refused.1 == StepView::<Buried>::Perform(request(Op::RemoveFile, state.dest))
            &&& bury_step(target, graveyard, cwd, inspect, refused.0, event) == bury_ends(
                Err(
                    failure_pair(
                        ErrorKind::InvalidInput,
                        Reason::CopyFile,
                        state.source,
                        state.dest,
                    ),
                ),
            )
        }),
{
    let refused = bury_step(target, graveyard, cwd, inspect, state, EventView::Answer(false));
    assert(refused.0.mover.created =~= Seq::<MadeView>::empty());
}

/// A burial whose move fails leaves nothing at the grave and nothing in the record:
/// the burial ends with the failure of the move, and the move reports a failure only
/// when it has made nothing yet or has asked for the removal of all that it made.
pub proof fn lemma_failed_burial_leaves_nothing(
    target: Seq<u8>,
    graveyard: Seq<u8>,
    cwd: Seq<u8>,
    inspect: bool,
    state: BuryStateView,
    event: EventView,
    fail: FailureView,
)
    requires
        state.phase == BuryPhase::Move,
        bury_step(target, graveyard, cwd, inspect, state, event).1 == StepView::<
            Buried,
        >::Finished(Err(fail)),
    ensures
        move_step(state.source, state.dest, state.mover, event).1 == StepView::<Moved>::Finished(
            Err(fail),
        ),
        nothing_made(state.mover),
{
    lemma_failure_leaves_nothing(state.source, state.dest, state.mover, event, fail);
}

/// A second object that is to rest where another rests already is buried beside it.
/// With a host in which exactly the paths in `occupied` are taken and a rename that
/// succeeds, the engine passes over every name that is taken, has the source renamed
/// to the first name that is free, and asks for the line of the source and that
/// name at the end of the record; then the burial ends with `Buried`. What rests
/// under the names that are taken is not asked to be touched.
pub proof fn lemma_buried_beside(
    target: Seq<u8>,
    graveyard: Seq<u8>,
    cwd: Seq<u8>,
    inspect: bool,
    state: BuryStateView,
    occupied: Set<Seq<u8>>,
    n: nat,
)
    requires
        state.phase == BuryPhase::Probe,
        state.attempt <= n <= u64::MAX,
        resolves_to(state.dest, occupied, n),
    ensures
        ({
            let place = candidate(state.dest, n);
            let found = bury_probes(
                target,
                graveyard,
                cwd,
                inspect,
                state,
                occupied,
                (n - state.attempt) as nat,
            );
            let moved = bury_step(target, graveyard, cwd, inspect, found.0, EventView::Done);
            &&& !occupied.contains(place)
            &&& found.1 == StepView::<Buried>::Perform(
                request_pair(Op::Rename, state.source, place),
            )
            &&& moved.1 == StepView::<Buried>::Perform(
                request_pair(
                    Op::AppendRecord,
                    joined(graveyard, record_name()),
                    entry_line(Entry { orig: state.source, dest: place }),
                ),
            )
            &&& bury_step(target, graveyard, cwd, inspect, moved.0, EventView::Done)
                == bury_ends(Ok(Buried::Buried))
        }),
{
    lemma_probe_finds_first_free(target, graveyard, cwd, inspect, state, occupied, n);
}

/// The search for a free place ends at the first name that is not taken: with a
/// host in which exactly the paths in `occupied` are taken, the engine asks after
/// one name after the other and begins the move to the first that is free.
pub proof fn lemma_probe_finds_first_free(
    target: Seq<u8>,
    graveyard: Seq<u8>,
    cwd: Seq<u8>,
    inspect: bool,
    state: BuryStateView,
    occupied: Set<Seq<u8>>,
    n: nat,
)
    requires
        state.phase == BuryPhase::Probe,
        state.attempt <= n <= u64::MAX,
        resolves_to(state.dest, occupied, n),
    ensures
        ({
            let found = bury_probes(
                target,
                graveyard,
                cwd,
                inspect,
                state,
                occupied,
                (n - state.attempt) as nat,
            );
            let place = candidate(state.dest, n);
            &&& found.0 == BuryStateView {
                phase: BuryPhase::Move,
                dest: place,
                attempt: n as u64,
                mover: move_step(state.source, place, move_fresh(), EventView::Start).0,
                ..state
            }
            &&& found.1 == StepView::<Buried>::Perform(
                request_pair(Op::Rename, state.source, place),
            )
        }),
    decreases n - state.attempt,
{
    if state.attempt < n {
        assert(occupied.contains(candidate(state.dest, state.attempt as nat)));
        let next = bury_step(target, graveyard, cwd, inspect, state, EventView::Answer(true));
        lemma_probe_finds_first_free(target, graveyard, cwd, inspect, next.0, occupied, n);
    }
}

/// The search for a free place ends even where every name is taken: when the last
/// number has been tried, the burial ends with a failure and nothing was moved.
pub proof fn lemma_probe_gives_up(
    target: Seq<u8>,
    graveyard: Seq<u8>,
    cwd: Seq<u8>,
    inspect: bool,
    state: BuryStateView,
    occupied: Set<Seq<u8>>,
)
    requires
        state.phase == BuryPhase::Probe,
        forall|k: nat|
            state.attempt <= k <= u64::MAX ==> occupied.contains(
                #[trigger] candidate(state.dest, k),
            ),
    ensures
        bury_probes(
            target,
            graveyard,
            cwd,
            inspect,
            state,
            occupied,
            (u64::MAX - state.attempt) as nat,
        ) == bury_ends(Err(failure(ErrorKind::Internal, Reason::NoFreeName, state.dest))),
    decreases u64::MAX - state.attempt,
{
    assert(occupied.contains(candidate(state.dest, state.attempt as nat)));
    if state.attempt < u64::MAX {
        let next = bury_step(target, graveyard, cwd, inspect, state, EventView::Answer(true));
        lemma_probe_gives_up(target, graveyard, cwd, inspect, next.0, occupied);
    }
}

/// A burial from its first step to its last, where places are taken. The target is
/// no link, is found at `source`, does not lie in the graveyard and can be recorded;
/// exactly the paths in `occupied` are taken, which may hold what was buried from the
/// same path before; the rename succeeds. Then the engine has the source renamed to
/// the first of its places that is free, which is none of those taken, and asks for
/// the line of the source and that place at the end of the record, so that the
/// entries that stand there stay; and the burial ends with `Buried`.
pub proof fn lemma_burial_takes_first_free_place(
    target: Seq<u8>,
    graveyard: Seq<u8>,
    cwd: Seq<u8>,
    meta: FileMeta,
    source: Seq<u8>,
    occupied: Set<Seq<u8>>,
    n: nat,
)
    requires
        meta.kind != FileKind::Symlink,
        !is_under(source, graveyard),
        recordable(source),
        recordable(grave_mapping(graveyard, source)),
        n <= u64::MAX,
        resolves_to(grave_mapping(graveyard, source), occupied, n),
    ensures
        ({
            let place = candidate(grave_mapping(graveyard, source), n);
            let b0 = bury_step(target, graveyard, cwd, false, bury_fresh(), EventView::Start);
            let b1 = bury_step(target, graveyard, cwd, false, b0.0, EventView::Meta(meta));
            let b2 = bury_step(target, graveyard, cwd, false, b1.0, EventView::Text(source));
            let found = bury_probes(target, graveyard, cwd, false, b2.0, occupied, n);
            let moved = bury_step(target, graveyard, cwd, false, found.0, EventView::Done);
            &&& !occupied.contains(place)
            &&& recordable(place)
            &&& is_under(place, graveyard)
            &&& b2.1 == StepView::<Buried>::Perform(
                request(Op::Exists, grave_mapping(graveyard, source)),
            )
            &&& found.1 == StepView::<Buried>::Perform(request_pair(Op::Rename, source, place))
            &&& moved.1 == StepView::<Buried>::Perform(
                request_pair(
                    Op::AppendRecord,
                    joined(graveyard, record_name()),
                    entry_line(Entry { orig: source, dest: place }),
                ),
            )
            &&& bury_step(target, graveyard, cwd, false, moved.0, EventView::Done) == bury_ends(
                Ok(Buried::Buried),
            )
        }),
{
    let grave = grave_mapping(graveyard, source);
    let b0 = bury_step(target, graveyard, cwd, false, bury_fresh(), EventView::Start);
    let b1 = bury_step(target, graveyard, cwd, false, b0.0, EventView::Meta(meta));
    let b2 = bury_step(target, graveyard, cwd, false, b1.0, EventView::Text(source));
    assert(b2.0.phase == BuryPhase::Probe && b2.0.dest == grave && b2.0.attempt == 0
        && b2.0.source == source);
    lemma_buried_beside(target, graveyard, cwd, false, b2.0, occupied, n);
    lemma_candidate_bytes(grave, n, DELIMITER);
    lemma_candidate_bytes(grave, n, LINE_END);
    lemma_grave_inside_graveyard(graveyard, source, n);
}

} // verus!
