//! The whole course of a move across filesystems when nothing fails: what the engine
//! asks of the host, from the rename that does not work to the removal of the source,
//! for a single object and for a directory with every listing that a walk may give.

use crate::copy::{CopyState, BIG_FILE_THRESHOLD};
use crate::host::{
    request, request_number, request_pair, ActionView, ErrorKind, EventView, FileKind, FileMeta,
    Op, StepView, WalkEntryView,
};
use crate::path::{parent_of, rerooted};
use crate::relocate::{move_fresh, move_step, MovePhase, MoveStateView, Moved};
use vstd::prelude::*;

verus! {

/// What the host tells of one entry while it is copied: what its stat says, and, if
/// it is a link, where it points.
pub struct Told {
    pub meta: FileMeta,
    pub link: Seq<u8>,
}

/// The place of `entry` under `dest`.
pub open spec fn place_of(target: Seq<u8>, dest: Seq<u8>, entry: WalkEntryView) -> Seq<u8> {
    match rerooted(entry.path, target, dest) {
        Some(place) => place,
        None => Seq::<u8>::empty(),
    }
}

/// What the engine asks first for `entry`: a directory is made at its place; of
/// anything else the stat is asked.
pub open spec fn first_of_entry(target: Seq<u8>, dest: Seq<u8>, entry: WalkEntryView) -> ActionView {
    if entry.kind == FileKind::Directory {
        request(Op::CreateDirAll, place_of(target, dest, entry))
    } else {
        request(Op::Stat, entry.path)
    }
}

/// What the engine asks for `entry` after that: nothing more for a directory; for a
/// link, where it points and then a link to the same target at its place; for a pipe,
/// a pipe with the same permission bits at its place; for anything else, a copy of
/// its content to its place.
pub open spec fn rest_of_entry(
    target: Seq<u8>,
    dest: Seq<u8>,
    entry: WalkEntryView,
    told: Told,
) -> Seq<ActionView> {
    let place = place_of(target, dest, entry);
    if entry.kind == FileKind::Directory {
        Seq::<ActionView>::empty()
    } else if told.meta.kind == FileKind::Symlink {
        seq![request(Op::ReadLink, entry.path), request_pair(Op::Symlink, told.link, place)]
    } else if told.meta.kind == FileKind::Fifo {
        seq![request_number(Op::MakeFifo, place, told.meta.mode as u64)]
    } else {
        seq![request_pair(Op::CopyFile, entry.path, place)]
    }
}

/// What a host that meets no failure answers while `entry` is copied.
pub open spec fn answers_of_entry(entry: WalkEntryView, told: Told) -> Seq<EventView> {
    if entry.kind == FileKind::Directory {
        seq![EventView::Done]
    } else if told.meta.kind == FileKind::Symlink {
        seq![EventView::Meta(told.meta), EventView::Text(told.link), EventView::Done]
    } else {
        seq![EventView::Meta(told.meta), EventView::Done]
    }
}

/// What the engine asks first from the entry at `i` on: the first action for that
/// entry, or the removal of the source when no entry is left.
pub open spec fn first_from(
    target: Seq<u8>,
    dest: Seq<u8>,
    entries: Seq<WalkEntryView>,
    i: int,
) -> ActionView {
    if 0 <= i < entries.len() {
        first_of_entry(target, dest, entries[i])
    } else {
        request(Op::RemoveDirAll, target)
    }
}

/// What the host answers from the entry at `i` on: the answers for each entry, and
/// at last that the source is removed.
pub open spec fn answers_from(entries: Seq<WalkEntryView>, told: Seq<Told>, i: int) -> Seq<
    EventView,
>
    decreases entries.len() - i,
{
    if 0 <= i < entries.len() {
        answers_of_entry(entries[i], told[i]) + answers_from(entries, told, i + 1)
    } else {
        seq![EventView::Done]
    }
}

/// What the engine does in answer to that: for each entry, the rest of what it asks
/// for the entry and the first of what comes next; and at last the end of the move
/// with `Relocated`.
pub open spec fn steps_from(
    target: Seq<u8>,
    dest: Seq<u8>,
    entries: Seq<WalkEntryView>,
    told: Seq<Told>,
    i: int,
) -> Seq<StepView<Moved>>
    decreases entries.len() - i,
{
    if 0 <= i < entries.len() {
        rest_of_entry(target, dest, entries[i], told[i]).map_values(
            |a: ActionView| StepView::<Moved>::Perform(a),
        ).push(StepView::Perform(first_from(target, dest, entries, i + 1))) + steps_from(
            target,
            dest,
            entries,
            told,
            i + 1,
        )
    } else {
        seq![StepView::Finished(Ok(Moved::Relocated))]
    }
}

/// The steps that the engine takes, one for each of `events`, beginning in `state`.
pub open spec fn move_trace(
    target: Seq<u8>,
    dest: Seq<u8>,
    state: MoveStateView,
    events: Seq<EventView>,
) -> Seq<StepView<Moved>>
    decreases events.len(),
{
    if events.len() == 0 {
        Seq::<StepView<Moved>>::empty()
    } else {
        let next = move_step(target, dest, state, events[0]);
        seq![next.1] + move_trace(target, dest, next.0, events.skip(1))
    }
}

/// The state in which the engine is after `events`, beginning in `state`.
pub open spec fn move_state_after(
    target: Seq<u8>,
    dest: Seq<u8>,
    state: MoveStateView,
    events: Seq<EventView>,
) -> MoveStateView
    decreases events.len(),
{
    if events.len() == 0 {
        state
    } else {
        move_state_after(
            target,
            dest,
            move_step(target, dest, state, events[0]).0,
            events.skip(1),
        )
    }
}

/// The engine has asked the first action for the entry at `i`, or, when no entry
/// is left, the removal of the source.
pub open spec fn at_entry(
    target: Seq<u8>,
    dest: Seq<u8>,
    entries: Seq<WalkEntryView>,
    state: MoveStateView,
    i: int,
) -> bool {
    &&& state.entries == entries
    &&& state.index == i
    &&& 0 <= i <= entries.len()
    &&& i < entries.len() ==> {
        &&& state.created.len() > 0
        &&& state.created.last().path == place_of(target, dest, entries[i])
        &&& if entries[i].kind == FileKind::Directory {
            state.phase == MovePhase::Dir
        } else {
            state.phase == MovePhase::Leaf && state.copy == CopyState::Stat
        }
    }
    &&& i == entries.len() ==> state.phase == MovePhase::RemoveDir
}

/// The steps taken for two runs of events, one after the other, are the steps for
/// the first followed by the steps for the second from where the first has led.
pub proof fn lemma_trace_of_two(
    target: Seq<u8>,
    dest: Seq<u8>,
    state: MoveStateView,
    first: Seq<EventView>,
    second: Seq<EventView>,
)
    ensures
        move_trace(target, dest, state, first + second) == move_trace(target, dest, state, first)
            + move_trace(target, dest, move_state_after(target, dest, state, first), second),
    decreases first.len(),
{
    if first.len() > 0 {
        let next = move_step(target, dest, state, first[0]);
        assert((first + second).skip(1) =~= first.skip(1) + second);
        lemma_trace_of_two(target, dest, next.0, first.skip(1), second);
    }
}

/// The copy of one entry, when nothing fails: in answer to what the host tells of
/// it, the engine asks for the rest of what belongs to the entry, then for the first
/// of what comes next.
proof fn lemma_course_of_entry(
    target: Seq<u8>,
    dest: Seq<u8>,
    entries: Seq<WalkEntryView>,
    told: Seq<Told>,
    state: MoveStateView,
    i: int,
)
    requires
        0 <= i < entries.len(),
        at_entry(target, dest, entries, state, i),
        told[i].meta.size <= BIG_FILE_THRESHOLD,
        forall|j: int| 0 <= j < entries.len() ==> rerooted(
            (#[trigger] entries[j]).path,
            target,
            dest,
        ) is Some,
    ensures
        move_trace(target, dest, state, answers_of_entry(entries[i], told[i])) == rest_of_entry(
            target,
            dest,
            entries[i],
            told[i],
        ).map_values(|a: ActionView| StepView::<Moved>::Perform(a)).push(
            StepView::Perform(first_from(target, dest, entries, i + 1)),
        ),
        at_entry(
            target,
            dest,
            entries,
            move_state_after(target, dest, state, answers_of_entry(entries[i], told[i])),
            i + 1,
        ),
{
    reveal_with_fuel(move_trace, 4);
    reveal_with_fuel(move_state_after, 4);
}

/// The course from the entry at `i` on.
proof fn lemma_course_from(
    target: Seq<u8>,
    dest: Seq<u8>,
    entries: Seq<WalkEntryView>,
    told: Seq<Told>,
    state: MoveStateView,
    i: int,
)
    requires
        at_entry(target, dest, entries, state, i),
        told.len() == entries.len(),
        forall|j: int| 0 <= j < told.len() ==> (#[trigger] told[j]).meta.size <= BIG_FILE_THRESHOLD,
        forall|j: int| 0 <= j < entries.len() ==> rerooted(
            (#[trigger] entries[j]).path,
            target,
            dest,
        ) is Some,
    ensures
        move_trace(target, dest, state, answers_from(entries, told, i)) == steps_from(
            target,
            dest,
            entries,
            told,
            i,
        ),
    decreases entries.len() - i,
{
    if i < entries.len() {
        let answers = answers_of_entry(entries[i], told[i]);
        lemma_course_of_entry(target, dest, entries, told, state, i);
        let next = move_state_after(target, dest, state, answers);
        lemma_course_from(target, dest, entries, told, next, i + 1);
        lemma_trace_of_two(target, dest, state, answers, answers_from(entries, told, i + 1));
    } else {
        reveal_with_fuel(move_trace, 2);
    }
}

/// A directory moves across filesystems with all that the walk lists, when nothing
/// fails. The rename fails; the host makes the parent of the destination, says that
/// the source is a directory, and lists it; every entry lies under the source;
/// no entry is too big to be copied; nothing else fails. Then the
/// engine asks, in the order of the listing, for a directory at the place of each
/// directory, for a copy of each file to its place, for a link at the place of each
/// link with the target that the link has, for a pipe at the place of each pipe; it
/// asks for the removal of the source after all that and not before; and it ends
/// with `Relocated`.
pub proof fn lemma_course_of_a_directory(
    target: Seq<u8>,
    dest: Seq<u8>,
    entries: Seq<WalkEntryView>,
    told: Seq<Told>,
    cause: ErrorKind,
    meta: FileMeta,
)
    requires
        parent_of(dest) is Some,
        meta.kind == FileKind::Directory,
        told.len() == entries.len(),
        forall|j: int| 0 <= j < told.len() ==> (#[trigger] told[j]).meta.size <= BIG_FILE_THRESHOLD,
        forall|j: int| 0 <= j < entries.len() ==> rerooted(
            (#[trigger] entries[j]).path,
            target,
            dest,
        ) is Some,
    ensures
        move_trace(
            target,
            dest,
            move_fresh(),
            seq![
                EventView::Start,
                EventView::Failed(cause),
                EventView::Done,
                EventView::Meta(meta),
                EventView::Listing(entries),
            ] + answers_from(entries, told, 0),
        ) == seq![
            StepView::<Moved>::Perform(request_pair(Op::Rename, target, dest)),
            StepView::Perform(request(Op::CreateDirAll, parent_of(dest)->0)),
            StepView::Perform(request(Op::Stat, target)),
            StepView::Perform(request(Op::Walk, target)),
            StepView::Perform(first_from(target, dest, entries, 0)),
        ] + steps_from(target, dest, entries, told, 0),
{
    let before = seq![
        EventView::Start,
        EventView::Failed(cause),
        EventView::Done,
        EventView::Meta(meta),
        EventView::Listing(entries),
    ];
    let listed = move_state_after(target, dest, move_fresh(), before);
    reveal_with_fuel(move_trace, 6);
    reveal_with_fuel(move_state_after, 6);
    lemma_course_from(target, dest, entries, told, listed, 0);
    lemma_trace_of_two(target, dest, move_fresh(), before, answers_from(entries, told, 0));
}

/// A single object moves across filesystems, when nothing fails. The rename fails;
/// the host makes the parent of the destination and says that the source is no
/// directory; the source is not too big to be copied; nothing else
/// fails. Then the engine asks for the stat of the source and for what belongs to
/// its kind: a copy of its content to the destination, or a link there with the
/// target that the source has, or a pipe there with its permission bits; it asks
/// for the removal of the source after that and not before; and it ends with
/// `Relocated`.
pub proof fn lemma_course_of_a_single_object(
    target: Seq<u8>,
    dest: Seq<u8>,
    cause: ErrorKind,
    meta: FileMeta,
    told: Told,
)
    requires
        parent_of(dest) is Some,
        meta.kind != FileKind::Directory,
        told.meta.size <= BIG_FILE_THRESHOLD,
    ensures
        ({
            let source = WalkEntryView { path: target, kind: meta.kind, depth: 0, size: None };
            move_trace(
                target,
                dest,
                move_fresh(),
                seq![
                    EventView::Start,
                    EventView::Failed(cause),
                    EventView::Done,
                    EventView::Meta(meta),
                ] + answers_of_entry(source, told) + seq![EventView::Done],
            ) == seq![
                StepView::<Moved>::Perform(request_pair(Op::Rename, target, dest)),
                StepView::Perform(request(Op::CreateDirAll, parent_of(dest)->0)),
                StepView::Perform(request(Op::Stat, target)),
                StepView::Perform(request(Op::Stat, target)),
            ] + rest_of_entry(target, dest, source, told).map_values(
                |a: ActionView| StepView::<Moved>::Perform(a),
            ) + seq![
                StepView::Perform(request(Op::RemoveFile, target)),
                StepView::Finished(Ok(Moved::Relocated)),
            ]
        }),
{
    let source = WalkEntryView { path: target, kind: meta.kind, depth: 0, size: None };
    let before = seq![
        EventView::Start,
        EventView::Failed(cause),
        EventView::Done,
        EventView::Meta(meta),
    ];
    let answers = answers_of_entry(source, told);
    let last = seq![EventView::Done];
    let copying = move_state_after(target, dest, move_fresh(), before);
    let removing = move_state_after(target, dest, copying, answers);
    assert(rerooted(target, target, dest) == Some(dest)) by {
        assert(target.subrange(0, target.len() as int) =~= target);
        assert(target.skip(target.len() as int) =~= Seq::<u8>::empty());
    }
    reveal_with_fuel(move_trace, 5);
    reveal_with_fuel(move_state_after, 5);
    lemma_trace_of_two(target, dest, copying, answers, last);
    lemma_trace_of_two(target, dest, move_fresh(), before, answers + last);
    assert(before + answers + last =~= before + (answers + last));
    assert(move_trace(target, dest, copying, answers) =~= rest_of_entry(
        target,
        dest,
        source,
        told,
    ).map_values(|a: ActionView| StepView::<Moved>::Perform(a)).push(
        StepView::Perform(request(Op::RemoveFile, target)),
    ));
    assert(removing.phase == MovePhase::RemoveFile && !removing.discarded);
}

} // verus!
