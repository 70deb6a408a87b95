//! The way back: graves are chosen from the record, each is moved to where its
//! object was, or beside it if that place is taken again, and the record is written
//! anew without the graves that were emptied. Also the listing of the graves that lie
//! under one directory.
//!
//! An entry leaves the record exactly when its grave was emptied. If a move fails, the
//! graves that follow are left alone, the record is written without the graves emptied
//! so far, and the failure is reported: the grave that could not be moved keeps its
//! entry.

use crate::host::{
    failure, relay, relayed, request, request_pair, Action, ErrorKind, Event, EventView,
    Failure, FailureView, Op, Reason, Step, StepView,
};
use crate::path::{
    candidate, grave_mapping, is_under, join_absolute, joined, leading_separators,
    lemma_grave_elsewhere, path_views, rename_grave, to_owned_bytes,
};
use crate::record::{
    item_views, lemma_seance_finds_exactly, matching, parsed, record_name, record_path,
    rendered, under_prefix, without, Entry, Record, RecordItem,
};
use crate::relocate::{
    failure_view, move_fresh, move_step, move_target, MoveState, MoveStateView, Moved,
};
use vstd::prelude::*;

verus! {

/// What the way back is waiting for.
#[derive(Clone, Copy, Debug, PartialEq, Eq, Structural)]
pub enum UnburyPhase {
    /// Nothing was asked yet.
    Start,
    /// The content of the record.
    Read,
    /// The answer to whether the place tried last is taken.
    Probe,
    /// A step of the move.
    Move,
    /// The delivery of the word that a grave was returned.
    Tell,
    /// The writing of the record.
    Write,
}

/// How far the way back has come.
#[derive(Debug)]
pub struct UnburyState {
    pub phase: UnburyPhase,
    /// The record as it was read.
    pub record: Record,
    /// The entries whose graves are to be emptied, in the record's order.
    pub queue: Vec<RecordItem>,
    /// How many of them are done with: their graves are empty.
    pub index: usize,
    /// The place to which the current grave goes: where its object was; once a free
    /// place is found, that place.
    pub dest: Vec<u8>,
    /// The number of the alternate name tried last.
    pub attempt: u64,
    pub mover: MoveState,
    /// Why the work failed, while the record is being written.
    pub failure: Option<Failure>,
}

/// How far the way back has come, as a value of the model.
pub struct UnburyStateView {
    pub phase: UnburyPhase,
    pub record: Seq<Entry>,
    pub queue: Seq<Entry>,
    pub index: nat,
    pub dest: Seq<u8>,
    pub attempt: u64,
    pub mover: MoveStateView,
    pub failure: Option<FailureView>,
}

impl View for UnburyState {
    type V = UnburyStateView;

    open spec fn view(&self) -> UnburyStateView {
        UnburyStateView {
            phase: self.phase,
            record: self.record@,
            queue: item_views(self.queue@),
            index: self.index as nat,
            dest: self.dest@,
            attempt: self.attempt,
            mover: self.mover@,
            failure: failure_view(self.failure),
        }
    }
}

/// The grave paths of `entries`.
pub open spec fn graves_of(entries: Seq<Entry>) -> Seq<Seq<u8>> {
    entries.map_values(|e: Entry| e.dest)
}

/// The graves that are to be emptied: those that were named, with those that lie
/// under `prefix` if `also_prefix` is set; if that leaves none, the grave buried last.
pub open spec fn selection(
    record: Seq<Entry>,
    named: Seq<Seq<u8>>,
    also_prefix: bool,
    prefix: Seq<u8>,
) -> Seq<Seq<u8>> {
    let asked = if also_prefix {
        named + graves_of(under_prefix(record, prefix))
    } else {
        named
    };
    if asked.len() == 0 && record.len() > 0 {
        seq![record.last().dest]
    } else {
        asked
    }
}

/// The state of a way back of which nothing was asked yet.
pub open spec fn unbury_fresh() -> UnburyStateView {
    UnburyStateView {
        phase: UnburyPhase::Start,
        record: Seq::<Entry>::empty(),
        queue: Seq::<Entry>::empty(),
        index: 0,
        dest: Seq::<u8>::empty(),
        attempt: 0,
        mover: move_fresh(),
        failure: None,
    }
}

/// The end of the way back: with the failure, if there is one, else with the number
/// of graves that were emptied.
pub open spec fn unbury_ends(state: UnburyStateView) -> (UnburyStateView, StepView<usize>) {
    (
        unbury_fresh(),
        StepView::Finished(
            match state.failure {
                Some(f) => Err(f),
                None => Ok(state.index as usize),
            },
        ),
    )
}

/// The entries that stay in the record when the first `done` graves of the queue
/// have been emptied.
pub open spec fn remaining(record: Seq<Entry>, queue: Seq<Entry>, done: int) -> Seq<Entry> {
    without(record, graves_of(queue.take(done)))
}

/// No grave is left to empty, or the work has failed: the record is written without
/// the graves that were emptied, if there are any, and the work ends.
pub open spec fn unbury_closes(graveyard: Seq<u8>, state: UnburyStateView) -> (
    UnburyStateView,
    StepView<usize>,
) {
    if state.index == 0 || state.index > state.queue.len() {
        unbury_ends(state)
    } else {
        (
            UnburyStateView { phase: UnburyPhase::Write, ..state },
            StepView::Perform(
                request_pair(
                    Op::WriteRecord,
                    joined(graveyard, record_name()),
                    rendered(remaining(state.record, state.queue, state.index as int)),
                ),
            ),
        )
    }
}

/// The next grave of the queue is taken up: the place where its object was is
/// tried first.
pub open spec fn unbury_next(graveyard: Seq<u8>, state: UnburyStateView) -> (
    UnburyStateView,
    StepView<usize>,
) {
    if state.index >= state.queue.len() {
        unbury_closes(graveyard, state)
    } else {
        let orig = state.queue[state.index as int].orig;
        (
            UnburyStateView { phase: UnburyPhase::Probe, dest: orig, attempt: 0, ..state },
            StepView::Perform(request(Op::Exists, candidate(orig, 0))),
        )
    }
}

/// The state in which the current grave is done with.
pub open spec fn unbury_past(state: UnburyStateView) -> UnburyStateView {
    UnburyStateView { index: state.index + 1, ..state }
}

/// What the way back does next, in `state`, when `event` comes in. `named` are the
/// graves that the user named, `also_prefix` says whether the graves of what was
/// buried from under `cwd` are to be added.
pub open spec fn unbury_step(
    graveyard: Seq<u8>,
    cwd: Seq<u8>,
    named: Seq<Seq<u8>>,
    also_prefix: bool,
    state: UnburyStateView,
    event: EventView,
) -> (UnburyStateView, StepView<usize>) {
    let file = joined(graveyard, record_name());
    match state.phase {
        UnburyPhase::Start => (
            UnburyStateView { phase: UnburyPhase::Read, ..unbury_fresh() },
            StepView::Perform(request(Op::ReadRecord, file)),
        ),
        UnburyPhase::Read => {
            let record = match event {
                EventView::Text(content) => parsed(content),
                _ => Seq::<Entry>::empty(),
            };
            let graves = selection(record, named, also_prefix, grave_mapping(graveyard, cwd));
            unbury_next(
                graveyard,
                UnburyStateView {
                    record,
                    queue: matching(record, graves),
                    index: 0,
                    failure: None,
                    ..state
                },
            )
        },
        UnburyPhase::Probe => if state.index >= state.queue.len() {
            unbury_closes(
                graveyard,
                UnburyStateView {
                    failure: Some(failure(ErrorKind::Internal, Reason::Protocol, file)),
                    ..state
                },
            )
        } else {
            match event {
                EventView::Answer(taken) => if !taken {
                    let place = candidate(state.dest, state.attempt as nat);
                    let first = move_step(
                        state.queue[state.index as int].dest,
                        place,
                        move_fresh(),
                        EventView::Start,
                    );
                    (
                        UnburyStateView {
                            phase: UnburyPhase::Move,
                            dest: place,
                            mover: first.0,
                            ..state
                        },
                        relayed(first.1),
                    )
                } else if state.attempt < u64::MAX {
                    (
                        UnburyStateView { attempt: (state.attempt + 1) as u64, ..state },
                        StepView::Perform(
                            request(
                                Op::Exists,
                                candidate(state.dest, (state.attempt + 1) as nat),
                            ),
                        ),
                    )
                } else {
                    unbury_closes(
                        graveyard,
                        UnburyStateView {
                            failure: Some(
                                failure(ErrorKind::Internal, Reason::NoFreeName, state.dest),
                            ),
                            ..state
                        },
                    )
                },
                _ => unbury_closes(
                    graveyard,
                    UnburyStateView {
                        failure: Some(failure(ErrorKind::Internal, Reason::Protocol, file)),
                        ..state
                    },
                ),
            }
        },
        UnburyPhase::Move => if state.index >= state.queue.len() {
            unbury_closes(
                graveyard,
                UnburyStateView {
                    failure: Some(failure(ErrorKind::Internal, Reason::Protocol, file)),
                    ..state
                },
            )
        } else {
            let grave = state.queue[state.index as int].dest;
            let inner = move_step(grave, state.dest, state.mover, event);
            let state = UnburyStateView { mover: inner.0, ..state };
            match inner.1 {
                StepView::Perform(action) => (state, StepView::Perform(action)),
                StepView::Finished(Ok(Moved::Relocated)) => (
                    UnburyStateView { phase: UnburyPhase::Tell, ..state },
                    StepView::Perform(request_pair(Op::TellReturned, grave, state.dest)),
                ),
                StepView::Finished(Ok(Moved::Discarded)) => unbury_next(
                    graveyard,
                    unbury_past(state),
                ),
                StepView::Finished(Err(f)) => unbury_closes(
                    graveyard,
                    UnburyStateView { failure: Some(f), ..state },
                ),
            }
        },
        UnburyPhase::Tell => if state.index >= state.queue.len() {
            unbury_closes(
                graveyard,
                UnburyStateView {
                    failure: Some(failure(ErrorKind::Internal, Reason::Protocol, file)),
                    ..state
                },
            )
        } else {
            match event {
                EventView::Done => unbury_next(graveyard, unbury_past(state)),
                EventView::Failed(kind) => unbury_closes(
                    graveyard,
                    UnburyStateView {
                        failure: Some(
                            failure(kind, Reason::Tell, state.queue[state.index as int].dest),
                        ),
                        ..unbury_past(state)
                    },
                ),
                _ => unbury_closes(
                    graveyard,
                    UnburyStateView {
                        failure: Some(failure(ErrorKind::Internal, Reason::Protocol, file)),
                        ..unbury_past(state)
                    },
                ),
            }
        },
        UnburyPhase::Write => match event {
            EventView::Done => unbury_ends(state),
            EventView::Failed(kind) => unbury_ends(
                UnburyStateView {
                    failure: match state.failure {
                        Some(f) => Some(f),
                        None => Some(failure(kind, Reason::Record, file)),
                    },
                    ..state
                },
            ),
            _ => unbury_ends(
                UnburyStateView {
                    failure: match state.failure {
                        Some(f) => Some(f),
                        None => Some(failure(ErrorKind::Internal, Reason::Protocol, file)),
                    },
                    ..state
                },
            ),
        },
    }
}

impl UnburyState {
    /// The state of a way back of which nothing was asked yet.
    pub fn new() -> (state: UnburyState)
        ensures
            state@ == unbury_fresh(),
    {
        let state = UnburyState {
            phase: UnburyPhase::Start,
            record: Record::new(),
            queue: Vec::new(),
            index: 0,
            dest: Vec::new(),
            attempt: 0,
            mover: MoveState::new(),
            failure: None,
        };
        assert(state@.queue =~= Seq::<Entry>::empty());
        state
    }
}

/// The graves that are to be emptied.
pub fn select_graves(
    record: &Record,
    named: &Vec<Vec<u8>>,
    also_prefix: bool,
    prefix: &[u8],
) -> (graves: Vec<Vec<u8>>)
    ensures
        path_views(graves@) == selection(record@, path_views(named@), also_prefix, prefix@),
{
    let mut graves: Vec<Vec<u8>> = Vec::new();
    let mut i: usize = 0;
    while i < named.len()
        invariant
            i <= named.len(),
            path_views(graves@) == path_views(named@).take(i as int),
        decreases named.len() - i,
    {
        let ghost before = path_views(graves@);
        graves.push(to_owned_bytes(named[i].as_slice()));
        assert(path_views(graves@) =~= before.push(named[i as int]@));
        i += 1;
    }
    if also_prefix {
        let found = record.seance(prefix);
        let ghost under = under_prefix(record@, prefix@);
        let mut j: usize = 0;
        while j < found.len()
            invariant
                j <= found.len(),
                item_views(found@) == under,
                path_views(graves@) == path_views(named@) + graves_of(under.take(j as int)),
            decreases found.len() - j,
        {
            let ghost before = path_views(graves@);
            graves.push(to_owned_bytes(found[j].dest.as_slice()));
            assert(path_views(graves@) =~= before.push(found[j as int]@.dest));
            j += 1;
        }
    }
    if graves.len() == 0 {
        match record.get_last_bury() {
            Some(last) => {
                graves.push(last.dest);
            },
            None => {},
        }
    }
    graves
}

/// The grave paths of the first `done` entries of `queue`.
fn emptied(queue: &Vec<RecordItem>, done: usize) -> (graves: Vec<Vec<u8>>)
    requires
        done <= queue.len(),
    ensures
        path_views(graves@) == graves_of(item_views(queue@).take(done as int)),
{
    let ghost all = item_views(queue@);
    let mut graves: Vec<Vec<u8>> = Vec::new();
    let mut i: usize = 0;
    while i < done
        invariant
            i <= done <= queue.len(),
            all == item_views(queue@),
            path_views(graves@) == graves_of(all.take(i as int)),
        decreases done - i,
    {
        let ghost before = path_views(graves@);
        graves.push(to_owned_bytes(queue[i].dest.as_slice()));
        assert(path_views(graves@) =~= before.push(queue[i as int]@.dest));
        i += 1;
    }
    graves
}

fn ends(state: UnburyState) -> (next: (UnburyState, Step<usize>))
    ensures
        (next.0@, next.1@) == unbury_ends(state@),
{
    let result = match state.failure {
        Some(f) => Err(f),
        None => Ok(state.index),
    };
    (UnburyState::new(), Step::Finished(result))
}

fn closes(graveyard: &[u8], state: UnburyState) -> (next: (UnburyState, Step<usize>))
    ensures
        (next.0@, next.1@) == unbury_closes(graveyard@, state@),
{
    let mut state = state;
    if state.index == 0 || state.index > state.queue.len() {
        return ends(state);
    }
    let graves = emptied(&state.queue, state.index);
    let kept = state.record.log_exhumed_graves(&graves);
    let content = kept.render();
    let file = record_path(graveyard);
    state.phase = UnburyPhase::Write;
    (state, Step::Perform(Action::pair(Op::WriteRecord, file.as_slice(), content.as_slice())))
}

fn fails(graveyard: &[u8], state: UnburyState, fail: Failure) -> (next: (
    UnburyState,
    Step<usize>,
))
    ensures
        (next.0@, next.1@) == unbury_closes(
            graveyard@,
            UnburyStateView { failure: Some(fail@), ..state@ },
        ),
{
    let mut state = state;
    state.failure = Some(fail);
    closes(graveyard, state)
}

fn next_grave(graveyard: &[u8], state: UnburyState) -> (next: (UnburyState, Step<usize>))
    ensures
        (next.0@, next.1@) == unbury_next(graveyard@, state@),
{
    let mut state = state;
    if state.index >= state.queue.len() {
        return closes(graveyard, state);
    }
    let orig = to_owned_bytes(state.queue[state.index].orig.as_slice());
    let action = Action::new(Op::Exists, orig.as_slice());
    state.phase = UnburyPhase::Probe;
    state.dest = orig;
    state.attempt = 0;
    (state, Step::Perform(action))
}

/// One step of the way back of what rests in `graveyard`. `named` are the graves
/// that the user named; with `also_prefix` the graves of what was buried from under
/// `cwd` are added; if that leaves none, the grave buried last is taken.
///
/// The engine reads the record; a record that cannot be read counts as empty. The
/// entries whose grave is among those chosen are taken in the record's order; a
/// chosen grave without an entry is passed over. Each grave is moved to where its
/// object was, or to the first free alternate name of that place. When all are moved,
/// or one move has failed, the record is written without the entries of the graves
/// that were emptied, and the work ends with their number or with the failure.
pub fn unbury(
    graveyard: &[u8],
    cwd: &[u8],
    named: &Vec<Vec<u8>>,
    also_prefix: bool,
    state: UnburyState,
    event: Event,
) -> (next: (UnburyState, Step<usize>))
    ensures
        (next.0@, next.1@) == unbury_step(
            graveyard@,
            cwd@,
            path_views(named@),
            also_prefix,
            state@,
            event@,
        ),
{
    let mut state = state;
    match state.phase {
        UnburyPhase::Start => {
            let mut fresh = UnburyState::new();
            fresh.phase = UnburyPhase::Read;
            let file = record_path(graveyard);
            (fresh, Step::Perform(Action::new(Op::ReadRecord, file.as_slice())))
        },
        UnburyPhase::Read => {
            let record = match event {
                Event::Text(content) => Record::parse(content.as_slice()),
                _ => Record::new(),
            };
            let prefix = join_absolute(graveyard, cwd);
            let graves = select_graves(&record, named, also_prefix, prefix.as_slice());
            state.queue = record.lines_of_graves(&graves);
            state.record = record;
            state.index = 0;
            state.failure = None;
            next_grave(graveyard, state)
        },
        UnburyPhase::Probe => {
            if state.index >= state.queue.len() {
                let file = record_path(graveyard);
                let fail = Failure::new(ErrorKind::Internal, Reason::Protocol, file.as_slice());
                return fails(graveyard, state, fail);
            }
            match event {
                Event::Answer(taken) => {
                    if !taken {
                        let place = rename_grave(state.dest.as_slice(), state.attempt);
                        let first = move_target(
                            state.queue[state.index].dest.as_slice(),
                            place.as_slice(),
                            MoveState::new(),
                            Event::Start,
                        );
                        state.phase = UnburyPhase::Move;
                        state.dest = place;
                        state.mover = first.0;
                        (state, relay(first.1))
                    } else if state.attempt < u64::MAX {
                        state.attempt = state.attempt + 1;
                        let place = rename_grave(state.dest.as_slice(), state.attempt);
                        (state, Step::Perform(Action::new(Op::Exists, place.as_slice())))
                    } else {
                        let fail = Failure::new(
                            ErrorKind::Internal,
                            Reason::NoFreeName,
                            state.dest.as_slice(),
                        );
                        fails(graveyard, state, fail)
                    }
                },
                _ => {
                    let file = record_path(graveyard);
                    let fail = Failure::new(
                        ErrorKind::Internal,
                        Reason::Protocol,
                        file.as_slice(),
                    );
                    fails(graveyard, state, fail)
                },
            }
        },
        UnburyPhase::Move => {
            if state.index >= state.queue.len() {
                let file = record_path(graveyard);
                let fail = Failure::new(ErrorKind::Internal, Reason::Protocol, file.as_slice());
                return fails(graveyard, state, fail);
            }
            let mut mover = MoveState::new();
            std::mem::swap(&mut mover, &mut state.mover);
            let inner = move_target(
                state.queue[state.index].dest.as_slice(),
                state.dest.as_slice(),
                mover,
                event,
            );
            state.mover = inner.0;
            match inner.1 {
                Step::Perform(action) => (state, Step::Perform(action)),
                Step::Finished(Ok(Moved::Relocated)) => {
                    let action = Action::pair(
                        Op::TellReturned,
                        state.queue[state.index].dest.as_slice(),
                        state.dest.as_slice(),
                    );
                    state.phase = UnburyPhase::Tell;
                    (state, Step::Perform(action))
                },
                Step::Finished(Ok(Moved::Discarded)) => {
                    state.index = state.index + 1;
                    next_grave(graveyard, state)
                },
                Step::Finished(Err(f)) => fails(graveyard, state, f),
            }
        },
        UnburyPhase::Tell => {
            if state.index >= state.queue.len() {
                let file = record_path(graveyard);
                let fail = Failure::new(ErrorKind::Internal, Reason::Protocol, file.as_slice());
                return fails(graveyard, state, fail);
            }
            match event {
                Event::Done => {
                    state.index = state.index + 1;
                    next_grave(graveyard, state)
                },
                Event::Failed(kind) => {
                    let fail = Failure::new(
                        kind,
                        Reason::Tell,
                        state.queue[state.index].dest.as_slice(),
                    );
                    state.index = state.index + 1;
                    fails(graveyard, state, fail)
                },
                _ => {
                    let file = record_path(graveyard);
                    let fail = Failure::new(
                        ErrorKind::Internal,
                        Reason::Protocol,
                        file.as_slice(),
                    );
                    state.index = state.index + 1;
                    fails(graveyard, state, fail)
                },
            }
        },
        UnburyPhase::Write => {
            match event {
                Event::Done => {},
                Event::Failed(kind) => {
                    if state.failure.is_none() {
                        let file = record_path(graveyard);
                        state.failure = Some(
                            Failure::new(kind, Reason::Record, file.as_slice()),
                        );
                    }
                },
                _ => {
                    if state.failure.is_none() {
                        let file = record_path(graveyard);
                        state.failure = Some(
                            Failure::new(ErrorKind::Internal, Reason::Protocol, file.as_slice()),
                        );
                    }
                },
            }
            ends(state)
        },
    }
}

/// What the listing of graves is waiting for.
#[derive(Clone, Copy, Debug, PartialEq, Eq, Structural)]
pub enum SeancePhase {
    /// Nothing was asked yet.
    Start,
    /// The content of the record.
    Read,
    /// The delivery of the word that names a grave.
    Tell,
}

/// How far the listing of graves has come.
#[derive(Debug)]
pub struct SeanceState {
    pub phase: SeancePhase,
    /// The entries whose graves are to be named, in the record's order.
    pub queue: Vec<RecordItem>,
    /// How many of them have been named.
    pub index: usize,
}

/// How far the listing of graves has come, as a value of the model.
pub struct SeanceStateView {
    pub phase: SeancePhase,
    pub queue: Seq<Entry>,
    pub index: nat,
}

impl View for SeanceState {
    type V = SeanceStateView;

    open spec fn view(&self) -> SeanceStateView {
        SeanceStateView {
            phase: self.phase,
            queue: item_views(self.queue@),
            index: self.index as nat,
        }
    }
}

/// The state of a listing of which nothing was asked yet.
pub open spec fn seance_fresh() -> SeanceStateView {
    SeanceStateView { phase: SeancePhase::Start, queue: Seq::<Entry>::empty(), index: 0 }
}

/// The next grave is named; when all are named, the listing ends with their number.
pub open spec fn seance_next(state: SeanceStateView) -> (SeanceStateView, StepView<usize>) {
    if state.index >= state.queue.len() {
        (seance_fresh(), StepView::Finished(Ok(state.index as usize)))
    } else {
        (
            SeanceStateView { phase: SeancePhase::Tell, index: state.index + 1, ..state },
            StepView::Perform(request(Op::TellGrave, state.queue[state.index as int].dest)),
        )
    }
}

/// What the listing of the graves of what was buried from under `cwd` does next, in
/// `state`, when `event` comes in.
pub open spec fn seance_step(
    graveyard: Seq<u8>,
    cwd: Seq<u8>,
    state: SeanceStateView,
    event: EventView,
) -> (SeanceStateView, StepView<usize>) {
    let file = joined(graveyard, record_name());
    match state.phase {
        SeancePhase::Start => (
            SeanceStateView { phase: SeancePhase::Read, ..seance_fresh() },
            StepView::Perform(request(Op::ReadRecord, file)),
        ),
        SeancePhase::Read => {
            let record = match event {
                EventView::Text(content) => parsed(content),
                _ => Seq::<Entry>::empty(),
            };
            seance_next(
                SeanceStateView {
                    queue: under_prefix(record, grave_mapping(graveyard, cwd)),
                    index: 0,
                    ..state
                },
            )
        },
        SeancePhase::Tell => match event {
            EventView::Done => seance_next(state),
            EventView::Failed(kind) => (
                seance_fresh(),
                StepView::Finished(Err(failure(kind, Reason::Tell, file))),
            ),
            _ => (
                seance_fresh(),
                StepView::Finished(Err(failure(ErrorKind::Internal, Reason::Protocol, file))),
            ),
        },
    }
}

impl SeanceState {
    /// The state of a listing of which nothing was asked yet.
    pub fn new() -> (state: SeanceState)
        ensures
            state@ == seance_fresh(),
    {
        let state = SeanceState { phase: SeancePhase::Start, queue: Vec::new(), index: 0 };
        assert(state@.queue =~= Seq::<Entry>::empty());
        state
    }
}

fn next_told(state: SeanceState) -> (next: (SeanceState, Step<usize>))
    ensures
        (next.0@, next.1@) == seance_next(state@),
{
    let mut state = state;
    if state.index >= state.queue.len() {
        return (SeanceState::new(), Step::Finished(Ok(state.index)));
    }
    let action = Action::new(Op::TellGrave, state.queue[state.index].dest.as_slice());
    state.phase = SeancePhase::Tell;
    state.index = state.index + 1;
    (state, Step::Perform(action))
}

/// One step of the listing of what rests in `graveyard` and was buried from under
/// `cwd`.
///
/// The engine reads the record; a record that cannot be read counts as empty. It
/// names, in the record's order, the grave of every entry whose grave is the place of
/// `cwd` in the graveyard or lies below it, and ends with their number.
pub fn seance(graveyard: &[u8], cwd: &[u8], state: SeanceState, event: Event) -> (next: (
    SeanceState,
    Step<usize>,
))
    ensures
        (next.0@, next.1@) == seance_step(graveyard@, cwd@, state@, event@),
{
    let mut state = state;
    match state.phase {
        SeancePhase::Start => {
            let mut fresh = SeanceState::new();
            fresh.phase = SeancePhase::Read;
            let file = record_path(graveyard);
            (fresh, Step::Perform(Action::new(Op::ReadRecord, file.as_slice())))
        },
        SeancePhase::Read => {
            let record = match event {
                Event::Text(content) => Record::parse(content.as_slice()),
                _ => Record::new(),
            };
            let prefix = join_absolute(graveyard, cwd);
            state.queue = record.seance(prefix.as_slice());
            state.index = 0;
            next_told(state)
        },
        SeancePhase::Tell => match event {
            Event::Done => next_told(state),
            Event::Failed(kind) => {
                let file = record_path(graveyard);
                (
                    SeanceState::new(),
                    Step::Finished(Err(Failure::new(kind, Reason::Tell, file.as_slice()))),
                )
            },
            _ => {
                let file = record_path(graveyard);
                (
                    SeanceState::new(),
                    Step::Finished(
                        Err(Failure::new(ErrorKind::Internal, Reason::Protocol, file.as_slice())),
                    ),
                )
            },
        },
    }
}

/// Where the listing stands after the host has delivered `told` further words, one
/// after the other, beginning in `start`.
pub open spec fn seance_run(
    graveyard: Seq<u8>,
    cwd: Seq<u8>,
    start: (SeanceStateView, StepView<usize>),
    told: nat,
) -> (SeanceStateView, StepView<usize>)
    decreases told,
{
    if told == 0 {
        start
    } else {
        seance_run(
            graveyard,
            cwd,
            seance_step(graveyard, cwd, start.0, EventView::Done),
            (told - 1) as nat,
        )
    }
}

/// The listing names what it found, all of it and in the record's order: when the
/// record with the bytes `content` is read and every word is delivered, the engine
/// asks first for the grave of the first entry found to be named, then for that of
/// the next, and when none is left it ends with their number.
pub proof fn lemma_seance_names_what_it_found(
    graveyard: Seq<u8>,
    cwd: Seq<u8>,
    state: SeanceStateView,
    content: Seq<u8>,
    k: nat,
)
    requires
        state.phase == SeancePhase::Read,
        k <= under_prefix(parsed(content), grave_mapping(graveyard, cwd)).len() <= usize::MAX,
    ensures
        ({
            let found = under_prefix(parsed(content), grave_mapping(graveyard, cwd));
            let read = seance_step(graveyard, cwd, state, EventView::Text(content));
            let end = seance_run(graveyard, cwd, read, k);
            if k < found.len() {
                end.1 == StepView::<usize>::Perform(request(Op::TellGrave, found[k as int].dest))
            } else {
                end.1 == StepView::<usize>::Finished(Ok(found.len() as usize))
            }
        }),
{
    let found = under_prefix(parsed(content), grave_mapping(graveyard, cwd));
    let read = seance_step(graveyard, cwd, state, EventView::Text(content));
    if found.len() > 0 {
        lemma_seance_goes_on(graveyard, cwd, read.0, 0, k);
    }
}

/// The listing goes on from one grave to the next.
proof fn lemma_seance_goes_on(
    graveyard: Seq<u8>,
    cwd: Seq<u8>,
    state: SeanceStateView,
    i: nat,
    k: nat,
)
    requires
        state.phase == SeancePhase::Tell,
        state.index == i + 1,
        i < state.queue.len(),
        i + k <= state.queue.len(),
    ensures
        ({
            let asked = StepView::<usize>::Perform(
                request(Op::TellGrave, state.queue[i as int].dest),
            );
            let end = seance_run(graveyard, cwd, (state, asked), k);
            if i + k < state.queue.len() {
                end.1 == StepView::<usize>::Perform(
                    request(Op::TellGrave, state.queue[(i + k) as int].dest),
                )
            } else {
                end.1 == StepView::<usize>::Finished(Ok(state.queue.len() as usize))
            }
        }),
    decreases k,
{
    if k > 0 {
        let next = seance_step(graveyard, cwd, state, EventView::Done);
        if i + 1 < state.queue.len() {
            lemma_seance_goes_on(graveyard, cwd, next.0, i + 1, (k - 1) as nat);
        } else {
            reveal_with_fuel(seance_run, 2);
        }
    }
}

/// The listing leaves out what was buried from elsewhere: an object whose path does
/// not lie under `cwd` rests, under its first name, at a grave that the listing
/// for `cwd` does not find, whatever else the record holds. Both paths begin with the
/// same number of separators, as two absolute paths in canonical form do.
pub proof fn lemma_seance_leaves_out_what_rests_elsewhere(
    graveyard: Seq<u8>,
    cwd: Seq<u8>,
    state: SeanceStateView,
    content: Seq<u8>,
    source: Seq<u8>,
    entry: Entry,
)
    requires
        state.phase == SeancePhase::Read,
        leading_separators(cwd) == leading_separators(source),
        !is_under(source, cwd),
        entry.dest == grave_mapping(graveyard, source),
    ensures
        !seance_step(graveyard, cwd, state, EventView::Text(content)).0.queue.contains(entry),
{
    lemma_grave_elsewhere(graveyard, cwd, source);
    lemma_seance_finds_exactly(parsed(content), grave_mapping(graveyard, cwd), entry);
    let found = under_prefix(parsed(content), grave_mapping(graveyard, cwd));
    let next = seance_step(graveyard, cwd, state, EventView::Text(content));
    assert(next.0.queue == found || next.0.queue == Seq::<Entry>::empty());
}

} // verus!
