//! The look at an object before it is buried: what it is, how big it is, the first
//! few things in it, and the question whether it is to go to the graveyard.

use crate::host::{
    entry_views, failure, request, request_number, Action, ErrorKind, Event, EventView, Failure,
    FailureView, FileKind, FileMeta, Op, Reason, Step, StepView, WalkEntry, WalkEntryView,
};
use crate::path::{path_views, to_owned_bytes};
use vstd::prelude::*;

verus! {

/// How many lines of a file are shown.
pub const LINES_TO_INSPECT: usize = 6;

/// How many entries of a directory are shown.
pub const FILES_TO_INSPECT: usize = 6;

/// What the user said of the object that was shown.
#[derive(Clone, Copy, Debug, PartialEq, Eq, Structural)]
pub enum Inspected {
    /// It is to be buried.
    Accepted,
    /// It is to stay where it is.
    Declined,
}

/// What the inspection is waiting for.
#[derive(Clone, Copy, Debug, PartialEq, Eq, Structural)]
pub enum InspectPhase {
    /// Nothing was asked yet.
    Start,
    /// The listing of the directory.
    Walk,
    /// The delivery of the line that says what the object is.
    Summary,
    /// The first lines of the file.
    Lines,
    /// The delivery of one of the things to show, or of the word that the file could
    /// not be read.
    Showing,
    /// The answer to whether the object is to be buried.
    Confirm,
}

/// How far an inspection has come.
#[derive(Debug, PartialEq, Eq)]
pub struct InspectState {
    pub phase: InspectPhase,
    /// Whether the object is a directory.
    pub dir: bool,
    /// What is to be shown: entries of the directory, or lines of the file.
    pub shown: Vec<Vec<u8>>,
    /// How many of them have been shown.
    pub index: usize,
}

/// How far an inspection has come, as a value of the model.
pub struct InspectStateView {
    pub phase: InspectPhase,
    pub dir: bool,
    pub shown: Seq<Seq<u8>>,
    pub index: nat,
}

impl View for InspectState {
    type V = InspectStateView;

    open spec fn view(&self) -> InspectStateView {
        InspectStateView {
            phase: self.phase,
            dir: self.dir,
            shown: path_views(self.shown@),
            index: self.index as nat,
        }
    }
}

/// The sizes of the entries that have one, added up.
pub open spec fn total_size(entries: Seq<WalkEntryView>) -> nat
    decreases entries.len(),
{
    if entries.len() == 0 {
        0
    } else {
        total_size(entries.drop_last()) + match entries.last().size {
            Some(size) => size as nat,
            None => 0,
        }
    }
}

/// `n`, or the greatest number that fits if `n` does not.
pub open spec fn capped(n: nat) -> u64 {
    if n > u64::MAX {
        u64::MAX
    } else {
        n as u64
    }
}

/// The paths of the entries that lie directly in the directory that was walked.
pub open spec fn children(entries: Seq<WalkEntryView>) -> Seq<Seq<u8>> {
    entries.filter(|e: WalkEntryView| e.depth == 1).map_values(|e: WalkEntryView| e.path)
}

/// The first `limit` of `items`, or all of them if they are fewer.
pub open spec fn first_few(items: Seq<Seq<u8>>, limit: nat) -> Seq<Seq<u8>> {
    if items.len() <= limit {
        items
    } else {
        items.take(limit as int)
    }
}

/// The state of an inspection of which nothing was asked yet.
pub open spec fn inspect_fresh() -> InspectStateView {
    InspectStateView {
        phase: InspectPhase::Start,
        dir: false,
        shown: Seq::<Seq<u8>>::empty(),
        index: 0,
    }
}

/// The end of an inspection with `result`.
pub open spec fn inspect_ends(result: Result<Inspected, FailureView>) -> (
    InspectStateView,
    StepView<Inspected>,
) {
    (inspect_fresh(), StepView::Finished(result))
}

/// The next thing is shown; when all are shown, the question is asked.
pub open spec fn inspect_show(target: Seq<u8>, state: InspectStateView) -> (
    InspectStateView,
    StepView<Inspected>,
) {
    if state.index < state.shown.len() {
        (
            InspectStateView {
                phase: InspectPhase::Showing,
                index: state.index + 1,
                ..state
            },
            StepView::Perform(
                request(
                    if state.dir {
                        Op::TellChild
                    } else {
                        Op::TellLine
                    },
                    state.shown[state.index as int],
                ),
            ),
        )
    } else {
        (
            InspectStateView { phase: InspectPhase::Confirm, ..state },
            StepView::Perform(request(Op::ConfirmBury, target)),
        )
    }
}

/// What the inspection of `target`, which the host finds at `source` and whose stat
/// told `meta`, does next, in `state`, when `event` comes in.
pub open spec fn inspect_step(
    target: Seq<u8>,
    source: Seq<u8>,
    meta: FileMeta,
    state: InspectStateView,
    event: EventView,
) -> (InspectStateView, StepView<Inspected>) {
    match state.phase {
        InspectPhase::Start => if meta.kind == FileKind::Directory {
            (
                InspectStateView { phase: InspectPhase::Walk, dir: true, ..inspect_fresh() },
                StepView::Perform(request(Op::Walk, source)),
            )
        } else {
            (
                InspectStateView { phase: InspectPhase::Summary, ..inspect_fresh() },
                StepView::Perform(request_number(Op::TellFile, target, meta.size)),
            )
        },
        InspectPhase::Walk => match event {
            EventView::Listing(entries) => (
                InspectStateView {
                    phase: InspectPhase::Summary,
                    shown: first_few(children(entries), FILES_TO_INSPECT as nat),
                    index: 0,
                    ..state
                },
                StepView::Perform(
                    request_number(Op::TellDirectory, target, capped(total_size(entries))),
                ),
            ),
            EventView::Failed(_) => (
                InspectStateView {
                    phase: InspectPhase::Summary,
                    shown: Seq::<Seq<u8>>::empty(),
                    index: 0,
                    ..state
                },
                StepView::Perform(request_number(Op::TellDirectory, target, 0)),
            ),
            _ => inspect_ends(Err(failure(ErrorKind::Internal, Reason::Protocol, target))),
        },
        InspectPhase::Summary => match event {
            EventView::Done => if state.dir {
                inspect_show(target, state)
            } else {
                (
                    InspectStateView { phase: InspectPhase::Lines, ..state },
                    StepView::Perform(
                        request_number(Op::ReadLines, source, LINES_TO_INSPECT as u64),
                    ),
                )
            },
            EventView::Failed(kind) => inspect_ends(Err(failure(kind, Reason::Tell, target))),
            _ => inspect_ends(Err(failure(ErrorKind::Internal, Reason::Protocol, target))),
        },
        InspectPhase::Lines => match event {
            EventView::Lines(lines) => inspect_show(
                target,
                InspectStateView {
                    shown: first_few(lines, LINES_TO_INSPECT as nat),
                    index: 0,
                    ..state
                },
            ),
            EventView::Failed(_) => (
                InspectStateView {
                    phase: InspectPhase::Showing,
                    shown: Seq::<Seq<u8>>::empty(),
                    index: 0,
                    ..state
                },
                StepView::Perform(request(Op::TellUnreadable, source)),
            ),
            _ => inspect_ends(Err(failure(ErrorKind::Internal, Reason::Protocol, target))),
        },
        InspectPhase::Showing => match event {
            EventView::Done => inspect_show(target, state),
            EventView::Failed(kind) => inspect_ends(Err(failure(kind, Reason::Tell, target))),
            _ => inspect_ends(Err(failure(ErrorKind::Internal, Reason::Protocol, target))),
        },
        InspectPhase::Confirm => match event {
            EventView::Answer(yes) => inspect_ends(
                Ok(
                    if yes {
                        Inspected::Accepted
                    } else {
                        Inspected::Declined
                    },
                ),
            ),
            EventView::Failed(kind) => inspect_ends(Err(failure(kind, Reason::Prompt, target))),
            _ => inspect_ends(Err(failure(ErrorKind::Internal, Reason::Protocol, target))),
        },
    }
}

impl InspectState {
    /// The state of an inspection of which nothing was asked yet.
    pub fn new() -> (state: InspectState)
        ensures
            state@ == inspect_fresh(),
    {
        let state = InspectState {
            phase: InspectPhase::Start,
            dir: false,
            shown: Vec::new(),
            index: 0,
        };
        assert(state@.shown =~= Seq::<Seq<u8>>::empty());
        state
    }
}

/// Adds up the sizes of the entries, stopping at the greatest number that fits.
pub fn sum_sizes(entries: &Vec<WalkEntry>) -> (total: u64)
    ensures
        total == capped(total_size(entry_views(entries@))),
{
    let ghost all = entry_views(entries@);
    let mut total: u64 = 0;
    let mut i: usize = 0;
    while i < entries.len()
        invariant
            i <= entries.len(),
            all == entry_views(entries@),
            total == capped(total_size(all.take(i as int))),
        decreases entries.len() - i,
    {
        assert(all.take(i + 1).drop_last() =~= all.take(i as int));
        match entries[i].size {
            Some(size) => {
                total = total.saturating_add(size);
            },
            None => {},
        }
        i += 1;
    }
    assert(all.take(entries.len() as int) =~= all);
    total
}

/// The paths of the first `limit` entries that lie directly in the directory that
/// was walked.
pub fn first_children(entries: &Vec<WalkEntry>, limit: usize) -> (found: Vec<Vec<u8>>)
    ensures
        path_views(found@) == first_few(children(entry_views(entries@)), limit as nat),
{
    let ghost all = entry_views(entries@);
    let mut found: Vec<Vec<u8>> = Vec::new();
    let mut i: usize = 0;
    proof {
        reveal(Seq::filter);
    }
    while i < entries.len()
        invariant
            i <= entries.len(),
            all == entry_views(entries@),
            path_views(found@) == first_few(children(all.take(i as int)), limit as nat),
            found.len() <= limit,
        decreases entries.len() - i,
    {
        let ghost before = path_views(found@);
        proof {
            reveal(Seq::filter);
            assert(all.take(i + 1).drop_last() =~= all.take(i as int));
        }
        if entries[i].depth == 1 && found.len() < limit {
            found.push(to_owned_bytes(entries[i].path.as_slice()));
            assert(path_views(found@) =~= before.push(entries[i as int]@.path));
        }
        i += 1;
    }
    assert(all.take(entries.len() as int) =~= all);
    found
}

fn ends(result: Result<Inspected, Failure>) -> (next: (InspectState, Step<Inspected>))
    ensures
        (next.0@, next.1@) == inspect_ends(
            match result {
                Ok(v) => Ok(v),
                Err(f) => Err(f@),
            },
        ),
{
    (InspectState::new(), Step::Finished(result))
}

fn show(target: &[u8], state: InspectState) -> (next: (InspectState, Step<Inspected>))
    ensures
        (next.0@, next.1@) == inspect_show(target@, state@),
{
    let mut state = state;
    if state.index < state.shown.len() {
        let op = if state.dir {
            Op::TellChild
        } else {
            Op::TellLine
        };
        let action = Action::new(op, state.shown[state.index].as_slice());
        state.phase = InspectPhase::Showing;
        state.index = state.index + 1;
        (state, Step::Perform(action))
    } else {
        state.phase = InspectPhase::Confirm;
        (state, Step::Perform(Action::new(Op::ConfirmBury, target)))
    }
}

/// One step of the inspection of `target`, which the host finds at `source` and
/// whose stat told `meta`.
///
/// Of a directory the engine tells the sum of the sizes of all that it holds and the
/// first `FILES_TO_INSPECT` entries directly in it; of anything else its size and its
/// first `LINES_TO_INSPECT` lines, or that it cannot be read. Then it asks whether the
/// object is to be buried and ends with the answer.
pub fn do_inspection(
    target: &[u8],
    source: &[u8],
    meta: FileMeta,
    state: InspectState,
    event: Event,
) -> (next: (InspectState, Step<Inspected>))
    ensures
        (next.0@, next.1@) == inspect_step(target@, source@, meta, state@, event@),
{
    let mut state = state;
    match state.phase {
        InspectPhase::Start => {
            let dir = match meta.kind {
                FileKind::Directory => true,
                _ => false,
            };
            let mut fresh = InspectState::new();
            if dir {
                fresh.phase = InspectPhase::Walk;
                fresh.dir = true;
                (fresh, Step::Perform(Action::new(Op::Walk, source)))
            } else {
                fresh.phase = InspectPhase::Summary;
                (fresh, Step::Perform(Action::with_number(Op::TellFile, target, meta.size)))
            }
        },
        InspectPhase::Walk => match event {
            Event::Listing(entries) => {
                let total = sum_sizes(&entries);
                state.shown = first_children(&entries, FILES_TO_INSPECT);
                state.index = 0;
                state.phase = InspectPhase::Summary;
                (state, Step::Perform(Action::with_number(Op::TellDirectory, target, total)))
            },
            Event::Failed(_) => {
                state.shown = Vec::new();
                state.index = 0;
                state.phase = InspectPhase::Summary;
                assert(state@.shown =~= Seq::<Seq<u8>>::empty());
                (state, Step::Perform(Action::with_number(Op::TellDirectory, target, 0)))
            },
            _ => ends(Err(Failure::new(ErrorKind::Internal, Reason::Protocol, target))),
        },
        InspectPhase::Summary => match event {
            Event::Done => {
                if state.dir {
                    show(target, state)
                } else {
                    state.phase = InspectPhase::Lines;
                    (
                        state,
                        Step::Perform(
                            Action::with_number(Op::ReadLines, source, LINES_TO_INSPECT as u64),
                        ),
                    )
                }
            },
            Event::Failed(kind) => ends(Err(Failure::new(kind, Reason::Tell, target))),
            _ => ends(Err(Failure::new(ErrorKind::Internal, Reason::Protocol, target))),
        },
        InspectPhase::Lines => match event {
            Event::Lines(lines) => {
                let mut lines = lines;
                let ghost all = path_views(lines@);
                if lines.len() > LINES_TO_INSPECT {
                    lines.truncate(LINES_TO_INSPECT);
                    assert(path_views(lines@) =~= all.take(LINES_TO_INSPECT as int));
                }
                state.shown = lines;
                state.index = 0;
                show(target, state)
            },
            Event::Failed(_) => {
                state.shown = Vec::new();
                state.index = 0;
                state.phase = InspectPhase::Showing;
                assert(state@.shown =~= Seq::<Seq<u8>>::empty());
                (state, Step::Perform(Action::new(Op::TellUnreadable, source)))
            },
            _ => ends(Err(Failure::new(ErrorKind::Internal, Reason::Protocol, target))),
        },
        InspectPhase::Showing => match event {
            Event::Done => show(target, state),
            Event::Failed(kind) => ends(Err(Failure::new(kind, Reason::Tell, target))),
            _ => ends(Err(Failure::new(ErrorKind::Internal, Reason::Protocol, target))),
        },
        InspectPhase::Confirm => match event {
            Event::Answer(yes) => ends(
                Ok(
                    if yes {
                        Inspected::Accepted
                    } else {
                        Inspected::Declined
                    },
                ),
            ),
            Event::Failed(kind) => ends(Err(Failure::new(kind, Reason::Prompt, target))),
            _ => ends(Err(Failure::new(ErrorKind::Internal, Reason::Protocol, target))),
        },
    }
}

/// What the inspection may ask of the host.
pub open spec fn inspect_asks(op: Op) -> bool {
    op == Op::Walk || op == Op::ReadLines || op == Op::TellDirectory || op == Op::TellFile || op
        == Op::TellChild || op == Op::TellLine || op == Op::TellUnreadable || op
        == Op::ConfirmBury
}

/// The inspection asks the host for nothing but to look, to tell and to ask: it
/// changes nothing.
pub proof fn lemma_inspect_asks(
    target: Seq<u8>,
    source: Seq<u8>,
    meta: FileMeta,
    state: InspectStateView,
    event: EventView,
)
    ensures
        inspect_step(target, source, meta, state, event).1 matches StepView::Perform(action)
            ==> inspect_asks(action.op),
{
}

} // verus!
