//! Burial and way back undo each other: what the burial of a file has the host do,
//! the way back has it undo, step for step, and the record is again what it was.

use crate::args::ArgsView;
use crate::bury::{bury_fresh, bury_step, Buried, BuryPhase};
use crate::dispatch::{run_fresh, run_step, EnvironmentView, RunPhase};
use crate::copy::BIG_FILE_THRESHOLD;
use crate::exhume::{
    graves_of, remaining, selection, unbury_fresh, unbury_step, UnburyPhase, UnburyStateView,
};
use crate::host::{
    request, request_pair, ErrorKind, EventView, FileKind, FileMeta, Op, StepView,
};
use crate::path::{grave_mapping, is_under, joined, parent_of};
use crate::record::{
    entry_line, entry_recordable, lemma_append_line, lemma_last_entry_leaves_alone,
    lemma_parse_of_render, lemma_rendered_ends_lines, matching, record_name, recordable,
    rendered, Entry,
};
use crate::relocate::MovePhase;
use vstd::prelude::*;

verus! {

/// The way back begins with the grave buried last: the record holds `entries` and
/// after them the entry of a grave that no other entry has, and no grave is named.
/// The engine reads the record, takes up that grave alone, and asks whether the
/// place where its object was is taken.
proof fn lemma_way_back_begins(
    graveyard: Seq<u8>,
    cwd: Seq<u8>,
    source: Seq<u8>,
    grave: Seq<u8>,
    entries: Seq<Entry>,
)
    requires
        recordable(source),
        recordable(grave),
        forall|i: int| 0 <= i < entries.len() ==> entry_recordable(#[trigger] entries[i]),
        forall|i: int| 0 <= i < entries.len() ==> (#[trigger] entries[i]).dest != grave,
    ensures
        ({
            let entry = Entry { orig: source, dest: grave };
            let none = Seq::<Seq<u8>>::empty();
            let u0 = unbury_step(graveyard, cwd, none, false, unbury_fresh(), EventView::Start);
            let u1 = unbury_step(
                graveyard,
                cwd,
                none,
                false,
                u0.0,
                EventView::Text(rendered(entries) + entry_line(entry)),
            );
            &&& u0.1 == StepView::<usize>::Perform(
                request(Op::ReadRecord, joined(graveyard, record_name())),
            )
            &&& u1.1 == StepView::<usize>::Perform(request(Op::Exists, source))
            &&& u1.0 == UnburyStateView {
                phase: UnburyPhase::Probe,
                record: entries.push(entry),
                queue: seq![entry],
                dest: source,
                ..unbury_fresh()
            }
            &&& remaining(entries.push(entry), seq![entry], 1) == entries
        }),
{
    let entry = Entry { orig: source, dest: grave };
    let none = Seq::<Seq<u8>>::empty();
    let record = entries.push(entry);
    lemma_parse_of_render(entries);
    lemma_rendered_ends_lines(entries);
    lemma_append_line(rendered(entries), entry);
    lemma_last_entry_leaves_alone(entries, entry);
    let graves = selection(record, none, false, grave_mapping(graveyard, cwd));
    assert(graves =~= seq![grave]);
    let queue = matching(record, graves);
    assert(queue.take(1) =~= queue);
    assert(graves_of(queue) =~= seq![grave]);
}

/// The way back undoes the burial. A target that is no link, is found at `source`,
/// does not lie in the graveyard and can be recorded is buried where its place in
/// the graveyard is free and unrecorded, by a rename that succeeds; then the way
/// back is taken without naming a grave, the place where the target was being free.
/// The burial has the source renamed to its grave and the line of the two added to
/// the record. The way back reads the record, has that same grave renamed to the
/// source, and writes the record as it was before the burial.
pub proof fn lemma_round_trip(
    target: Seq<u8>,
    graveyard: Seq<u8>,
    cwd: Seq<u8>,
    meta: FileMeta,
    source: Seq<u8>,
    entries: Seq<Entry>,
)
    requires
        meta.kind != FileKind::Symlink,
        !is_under(source, graveyard),
        recordable(source),
        recordable(grave_mapping(graveyard, source)),
        forall|i: int| 0 <= i < entries.len() ==> entry_recordable(#[trigger] entries[i]),
        forall|i: int|
            0 <= i < entries.len() ==> (#[trigger] entries[i]).dest != grave_mapping(
                graveyard,
                source,
            ),
    ensures
        ({
            let grave = grave_mapping(graveyard, source);
            let file = joined(graveyard, record_name());
            let line = entry_line(Entry { orig: source, dest: grave });
            let none = Seq::<Seq<u8>>::empty();
            let b0 = bury_step(target, graveyard, cwd, false, bury_fresh(), EventView::Start);
            let b1 = bury_step(target, graveyard, cwd, false, b0.0, EventView::Meta(meta));
            let b2 = bury_step(target, graveyard, cwd, false, b1.0, EventView::Text(source));
            let b3 = bury_step(target, graveyard, cwd, false, b2.0, EventView::Answer(false));
            let b4 = bury_step(target, graveyard, cwd, false, b3.0, EventView::Done);
            let b5 = bury_step(target, graveyard, cwd, false, b4.0, EventView::Done);
            let u0 = unbury_step(graveyard, cwd, none, false, unbury_fresh(), EventView::Start);
            let u1 = unbury_step(
                graveyard,
                cwd,
                none,
                false,
                u0.0,
                EventView::Text(rendered(entries) + line),
            );
            let u2 = unbury_step(graveyard, cwd, none, false, u1.0, EventView::Answer(false));
            let u3 = unbury_step(graveyard, cwd, none, false, u2.0, EventView::Done);
            let u4 = unbury_step(graveyard, cwd, none, false, u3.0, EventView::Done);
            let u5 = unbury_step(graveyard, cwd, none, false, u4.0, EventView::Done);
            &&& b2.1 == StepView::<Buried>::Perform(request(Op::Exists, grave))
            &&& b3.1 == StepView::<Buried>::Perform(request_pair(Op::Rename, source, grave))
            &&& b4.1 == StepView::<Buried>::Perform(request_pair(Op::AppendRecord, file, line))
            &&& b5.1 == StepView::<Buried>::Finished(Ok(Buried::Buried))
            &&& u0.1 == StepView::<usize>::Perform(request(Op::ReadRecord, file))
            &&& u1.1 == StepView::<usize>::Perform(request(Op::Exists, source))
            &&& u2.1 == StepView::<usize>::Perform(request_pair(Op::Rename, grave, source))
            &&& u3.1 == StepView::<usize>::Perform(request_pair(Op::TellReturned, grave, source))
            &&& u4.1 == StepView::<usize>::Perform(
                request_pair(Op::WriteRecord, file, rendered(entries)),
            )
            &&& u5.1 == StepView::<usize>::Finished(Ok(1usize))
        }),
{
    lemma_way_back_begins(graveyard, cwd, source, grave_mapping(graveyard, source), entries);
}

/// The burial of a regular file across filesystems, when nothing fails: the rename
/// fails, the host makes the parent of the grave, tells what the file is, copies it
/// and removes the source. The engine has the content of the source copied to its
/// grave, then the source removed, and only then the line added to the record.
pub proof fn lemma_burial_across_filesystems(
    target: Seq<u8>,
    graveyard: Seq<u8>,
    cwd: Seq<u8>,
    meta: FileMeta,
    source: Seq<u8>,
    cause: ErrorKind,
)
    requires
        meta.kind == FileKind::Regular,
        meta.size <= BIG_FILE_THRESHOLD,
        !is_under(source, graveyard),
        recordable(source),
        recordable(grave_mapping(graveyard, source)),
        parent_of(grave_mapping(graveyard, source)) is Some,
    ensures
        ({
            let grave = grave_mapping(graveyard, source);
            let file = joined(graveyard, record_name());
            let line = entry_line(Entry { orig: source, dest: grave });
            let b0 = bury_step(target, graveyard, cwd, false, bury_fresh(), EventView::Start);
            let b1 = bury_step(target, graveyard, cwd, false, b0.0, EventView::Meta(meta));
            let b2 = bury_step(target, graveyard, cwd, false, b1.0, EventView::Text(source));
            let b3 = bury_step(target, graveyard, cwd, false, b2.0, EventView::Answer(false));
            let b4 = bury_step(target, graveyard, cwd, false, b3.0, EventView::Failed(cause));
            let b5 = bury_step(target, graveyard, cwd, false, b4.0, EventView::Done);
            let b6 = bury_step(target, graveyard, cwd, false, b5.0, EventView::Meta(meta));
            let b7 = bury_step(target, graveyard, cwd, false, b6.0, EventView::Meta(meta));
            let b8 = bury_step(target, graveyard, cwd, false, b7.0, EventView::Done);
            let b9 = bury_step(target, graveyard, cwd, false, b8.0, EventView::Done);
            let b10 = bury_step(target, graveyard, cwd, false, b9.0, EventView::Done);
            &&& b3.1 == StepView::<Buried>::Perform(request_pair(Op::Rename, source, grave))
            &&& b4.1 == StepView::<Buried>::Perform(
                request(Op::CreateDirAll, parent_of(grave)->0),
            )
            &&& b5.1 == StepView::<Buried>::Perform(request(Op::Stat, source))
            &&& b6.1 == StepView::<Buried>::Perform(request(Op::Stat, source))
            &&& b7.1 == StepView::<Buried>::Perform(request_pair(Op::CopyFile, source, grave))
            &&& b8.1 == StepView::<Buried>::Perform(request(Op::RemoveFile, source))
            &&& b9.1 == StepView::<Buried>::Perform(request_pair(Op::AppendRecord, file, line))
            &&& b10.1 == StepView::<Buried>::Finished(Ok(Buried::Buried))
        }),
{
    let grave = grave_mapping(graveyard, source);
    let b0 = bury_step(target, graveyard, cwd, false, bury_fresh(), EventView::Start);
    let b1 = bury_step(target, graveyard, cwd, false, b0.0, EventView::Meta(meta));
    let b2 = bury_step(target, graveyard, cwd, false, b1.0, EventView::Text(source));
    let b3 = bury_step(target, graveyard, cwd, false, b2.0, EventView::Answer(false));
    assert(b3.0.phase == BuryPhase::Move && b3.0.dest == grave && b3.0.source == source);
    let b4 = bury_step(target, graveyard, cwd, false, b3.0, EventView::Failed(cause));
    let b5 = bury_step(target, graveyard, cwd, false, b4.0, EventView::Done);
    let b6 = bury_step(target, graveyard, cwd, false, b5.0, EventView::Meta(meta));
    assert(b6.0.mover.phase == MovePhase::Single);
    let b7 = bury_step(target, graveyard, cwd, false, b6.0, EventView::Meta(meta));
    let b8 = bury_step(target, graveyard, cwd, false, b7.0, EventView::Done);
    assert(b8.0.mover.phase == MovePhase::RemoveFile && !b8.0.mover.discarded);
}

/// The way back of one grave by copy: the grave at the head of the queue is a
/// regular file that is not too big to be copied, the place where
/// its object was is free, and no rename works.
proof fn lemma_way_back_by_copy(
    graveyard: Seq<u8>,
    cwd: Seq<u8>,
    state: UnburyStateView,
    meta: FileMeta,
    cause: ErrorKind,
)
    requires
        meta.kind == FileKind::Regular,
        meta.size <= BIG_FILE_THRESHOLD,
        state.phase == UnburyPhase::Probe,
        state.queue.len() == 1,
        state.index == 0,
        state.attempt == 0,
        state.failure is None,
        parent_of(state.dest) is Some,
    ensures
        ({
            let file = joined(graveyard, record_name());
            let grave = state.queue[0].dest;
            let source = state.dest;
            let none = Seq::<Seq<u8>>::empty();
            let u2 = unbury_step(graveyard, cwd, none, false, state, EventView::Answer(false));
            let u3 = unbury_step(graveyard, cwd, none, false, u2.0, EventView::Failed(cause));
            let u4 = unbury_step(graveyard, cwd, none, false, u3.0, EventView::Done);
            let u5 = unbury_step(graveyard, cwd, none, false, u4.0, EventView::Meta(meta));
            let u6 = unbury_step(graveyard, cwd, none, false, u5.0, EventView::Meta(meta));
            let u7 = unbury_step(graveyard, cwd, none, false, u6.0, EventView::Done);
            let u8 = unbury_step(graveyard, cwd, none, false, u7.0, EventView::Done);
            let u9 = unbury_step(graveyard, cwd, none, false, u8.0, EventView::Done);
            let u10 = unbury_step(graveyard, cwd, none, false, u9.0, EventView::Done);
            &&& u2.1 == StepView::<usize>::Perform(request_pair(Op::Rename, grave, source))
            &&& u3.1 == StepView::<usize>::Perform(
                request(Op::CreateDirAll, parent_of(source)->0),
            )
            &&& u4.1 == StepView::<usize>::Perform(request(Op::Stat, grave))
            &&& u5.1 == StepView::<usize>::Perform(request(Op::Stat, grave))
            &&& u6.1 == StepView::<usize>::Perform(request_pair(Op::CopyFile, grave, source))
            &&& u7.1 == StepView::<usize>::Perform(request(Op::RemoveFile, grave))
            &&& u8.1 == StepView::<usize>::Perform(request_pair(Op::TellReturned, grave, source))
            &&& u9.1 == StepView::<usize>::Perform(
                request_pair(
                    Op::WriteRecord,
                    file,
                    rendered(remaining(state.record, state.queue, 1)),
                ),
            )
            &&& u10.1 == StepView::<usize>::Finished(Ok(1usize))
        }),
{
    let none = Seq::<Seq<u8>>::empty();
    let u2 = unbury_step(graveyard, cwd, none, false, state, EventView::Answer(false));
    assert(u2.0.phase == UnburyPhase::Move && u2.0.dest == state.dest);
    let u3 = unbury_step(graveyard, cwd, none, false, u2.0, EventView::Failed(cause));
    let u4 = unbury_step(graveyard, cwd, none, false, u3.0, EventView::Done);
    let u5 = unbury_step(graveyard, cwd, none, false, u4.0, EventView::Meta(meta));
    assert(u5.0.mover.phase == MovePhase::Single);
    let u6 = unbury_step(graveyard, cwd, none, false, u5.0, EventView::Meta(meta));
    let u7 = unbury_step(graveyard, cwd, none, false, u6.0, EventView::Done);
    assert(u7.0.mover.phase == MovePhase::RemoveFile && !u7.0.mover.discarded);
    let u8 = unbury_step(graveyard, cwd, none, false, u7.0, EventView::Done);
    assert(u8.0.queue == state.queue && u8.0.record == state.record && u8.0.index == 0);
}

/// The way back of a regular file across filesystems, when nothing fails. The record
/// holds `entries` and after them the entry of a grave that no other entry has; no
/// grave is named; the place where the file was is free; the rename fails, the host
/// makes the parent of that place, tells what the grave is, copies it and removes
/// the grave. The engine has the content of the grave copied to where the file was,
/// then the grave removed, and writes the record with `entries` alone.
pub proof fn lemma_way_back_across_filesystems(
    graveyard: Seq<u8>,
    cwd: Seq<u8>,
    meta: FileMeta,
    source: Seq<u8>,
    grave: Seq<u8>,
    entries: Seq<Entry>,
    cause: ErrorKind,
)
    requires
        meta.kind == FileKind::Regular,
        meta.size <= BIG_FILE_THRESHOLD,
        recordable(source),
        recordable(grave),
        parent_of(source) is Some,
        forall|i: int| 0 <= i < entries.len() ==> entry_recordable(#[trigger] entries[i]),
        forall|i: int| 0 <= i < entries.len() ==> (#[trigger] entries[i]).dest != grave,
    ensures
        ({
            let file = joined(graveyard, record_name());
            let line = entry_line(Entry { orig: source, dest: grave });
            let none = Seq::<Seq<u8>>::empty();
            let u0 = unbury_step(graveyard, cwd, none, false, unbury_fresh(), EventView::Start);
            let u1 = unbury_step(
                graveyard,
                cwd,
                none,
                false,
                u0.0,
                EventView::Text(rendered(entries) + line),
            );
            let u2 = unbury_step(graveyard, cwd, none, false, u1.0, EventView::Answer(false));
            let u3 = unbury_step(graveyard, cwd, none, false, u2.0, EventView::Failed(cause));
            let u4 = unbury_step(graveyard, cwd, none, false, u3.0, EventView::Done);
            let u5 = unbury_step(graveyard, cwd, none, false, u4.0, EventView::Meta(meta));
            let u6 = unbury_step(graveyard, cwd, none, false, u5.0, EventView::Meta(meta));
            let u7 = unbury_step(graveyard, cwd, none, false, u6.0, EventView::Done);
            let u8 = unbury_step(graveyard, cwd, none, false, u7.0, EventView::Done);
            let u9 = unbury_step(graveyard, cwd, none, false, u8.0, EventView::Done);
            let u10 = unbury_step(graveyard, cwd, none, false, u9.0, EventView::Done);
            &&& u0.1 == StepView::<usize>::Perform(request(Op::ReadRecord, file))
            &&& u1.1 == StepView::<usize>::Perform(request(Op::Exists, source))
            &&& u2.1 == StepView::<usize>::Perform(request_pair(Op::Rename, grave, source))
            &&& u3.1 == StepView::<usize>::Perform(
                request(Op::CreateDirAll, parent_of(source)->0),
            )
            &&& u4.1 == StepView::<usize>::Perform(request(Op::Stat, grave))
            &&& u5.1 == StepView::<usize>::Perform(request(Op::Stat, grave))
            &&& u6.1 == StepView::<usize>::Perform(request_pair(Op::CopyFile, grave, source))
            &&& u7.1 == StepView::<usize>::Perform(request(Op::RemoveFile, grave))
            &&& u8.1 == StepView::<usize>::Perform(request_pair(Op::TellReturned, grave, source))
            &&& u9.1 == StepView::<usize>::Perform(
                request_pair(Op::WriteRecord, file, rendered(entries)),
            )
            &&& u10.1 == StepView::<usize>::Finished(Ok(1usize))
        }),
{
    let entry = Entry { orig: source, dest: grave };
    let none = Seq::<Seq<u8>>::empty();
    lemma_way_back_begins(graveyard, cwd, source, grave, entries);
    let u0 = unbury_step(graveyard, cwd, none, false, unbury_fresh(), EventView::Start);
    let u1 = unbury_step(
        graveyard,
        cwd,
        none,
        false,
        u0.0,
        EventView::Text(rendered(entries) + entry_line(entry)),
    );
    lemma_way_back_by_copy(graveyard, cwd, u1.0, meta, cause);
}

/// The options of an invocation that buries `target` in `graveyard`.
pub open spec fn burying(target: Seq<u8>, graveyard: Seq<u8>) -> ArgsView {
    ArgsView {
        targets: seq![target],
        graveyard: Some(graveyard),
        trash: false,
        decompose: false,
        seance: false,
        unbury: None,
        inspect: false,
        completions: None,
    }
}

/// The options of an invocation that brings back the last burial in `graveyard`.
pub open spec fn bringing_back(graveyard: Seq<u8>) -> ArgsView {
    ArgsView {
        targets: Seq::<Seq<u8>>::empty(),
        graveyard: Some(graveyard),
        trash: false,
        decompose: false,
        seance: false,
        unbury: Some(Seq::<Seq<u8>>::empty()),
        inspect: false,
        completions: None,
    }
}

/// The invocation that buries one target, when the graveyard is there and the rename
/// succeeds: it has the source renamed to its grave, the line added to the record,
/// and ends without failure.
proof fn lemma_invocation_buries(
    target: Seq<u8>,
    graveyard: Seq<u8>,
    env: EnvironmentView,
    meta: FileMeta,
    source: Seq<u8>,
)
    requires
        env.cwd is Some,
        meta.kind != FileKind::Symlink,
        !is_under(source, graveyard),
        recordable(source),
        recordable(grave_mapping(graveyard, source)),
    ensures
        ({
            let cli = burying(target, graveyard);
            let grave = grave_mapping(graveyard, source);
            let file = joined(graveyard, record_name());
            let line = entry_line(Entry { orig: source, dest: grave });
            let r0 = run_step(cli, env, run_fresh(), EventView::Start);
            let r1 = run_step(cli, env, r0.0, EventView::Answer(true));
            let r2 = run_step(cli, env, r1.0, EventView::Meta(meta));
            let r3 = run_step(cli, env, r2.0, EventView::Text(source));
            let r4 = run_step(cli, env, r3.0, EventView::Answer(false));
            let r5 = run_step(cli, env, r4.0, EventView::Done);
            let r6 = run_step(cli, env, r5.0, EventView::Done);
            &&& r0.1 == StepView::<()>::Perform(request(Op::Exists, graveyard))
            &&& r3.1 == StepView::<()>::Perform(request(Op::Exists, grave))
            &&& r4.1 == StepView::<()>::Perform(request_pair(Op::Rename, source, grave))
            &&& r5.1 == StepView::<()>::Perform(request_pair(Op::AppendRecord, file, line))
            &&& r6.1 == StepView::<()>::Finished(Ok(()))
        }),
{
    let cli = burying(target, graveyard);
    let cwd = env.cwd->0;
    let b0 = bury_step(target, graveyard, cwd, false, bury_fresh(), EventView::Start);
    let b1 = bury_step(target, graveyard, cwd, false, b0.0, EventView::Meta(meta));
    let b2 = bury_step(target, graveyard, cwd, false, b1.0, EventView::Text(source));
    let b3 = bury_step(target, graveyard, cwd, false, b2.0, EventView::Answer(false));
    let b4 = bury_step(target, graveyard, cwd, false, b3.0, EventView::Done);
    let r0 = run_step(cli, env, run_fresh(), EventView::Start);
    assert(r0.0.graveyard == graveyard && r0.0.phase == RunPhase::Graveyard);
    let r1 = run_step(cli, env, r0.0, EventView::Answer(true));
    assert(cli.targets[0] == target);
    assert(r1.0.phase == RunPhase::Bury && r1.0.bury == b0.0 && r1.0.index == 0);
    let r2 = run_step(cli, env, r1.0, EventView::Meta(meta));
    assert(r2.0.phase == RunPhase::Bury && r2.0.bury == b1.0 && r2.0.index == 0);
    let r3 = run_step(cli, env, r2.0, EventView::Text(source));
    assert(r3.0.phase == RunPhase::Bury && r3.0.bury == b2.0 && r3.0.index == 0);
    let r4 = run_step(cli, env, r3.0, EventView::Answer(false));
    assert(r4.0.phase == RunPhase::Bury && r4.0.bury == b3.0 && r4.0.index == 0);
    let r5 = run_step(cli, env, r4.0, EventView::Done);
    assert(r5.0.phase == RunPhase::Bury && r5.0.bury == b4.0 && r5.0.index == 0);
}

/// The invocation that brings back the last burial, when the graveyard is there, the
/// place where the object was is free and the rename succeeds: it has the grave
/// renamed to where the object was, the record written without the grave's entry,
/// and ends without failure.
proof fn lemma_invocation_brings_back(
    graveyard: Seq<u8>,
    env: EnvironmentView,
    source: Seq<u8>,
    grave: Seq<u8>,
    entries: Seq<Entry>,
)
    requires
        env.cwd is Some,
        recordable(source),
        recordable(grave),
        forall|i: int| 0 <= i < entries.len() ==> entry_recordable(#[trigger] entries[i]),
        forall|i: int| 0 <= i < entries.len() ==> (#[trigger] entries[i]).dest != grave,
    ensures
        ({
            let cli = bringing_back(graveyard);
            let file = joined(graveyard, record_name());
            let line = entry_line(Entry { orig: source, dest: grave });
            let v0 = run_step(cli, env, run_fresh(), EventView::Start);
            let v1 = run_step(cli, env, v0.0, EventView::Answer(true));
            let v2 = run_step(cli, env, v1.0, EventView::Text(rendered(entries) + line));
            let v3 = run_step(cli, env, v2.0, EventView::Answer(false));
            let v4 = run_step(cli, env, v3.0, EventView::Done);
            let v5 = run_step(cli, env, v4.0, EventView::Done);
            let v6 = run_step(cli, env, v5.0, EventView::Done);
            &&& v1.1 == StepView::<()>::Perform(request(Op::ReadRecord, file))
            &&& v2.1 == StepView::<()>::Perform(request(Op::Exists, source))
            &&& v3.1 == StepView::<()>::Perform(request_pair(Op::Rename, grave, source))
            &&& v4.1 == StepView::<()>::Perform(request_pair(Op::TellReturned, grave, source))
            &&& v5.1 == StepView::<()>::Perform(
                request_pair(Op::WriteRecord, file, rendered(entries)),
            )
            &&& v6.1 == StepView::<()>::Finished(Ok(()))
        }),
{
    let cli = bringing_back(graveyard);
    let cwd = env.cwd->0;
    let none = Seq::<Seq<u8>>::empty();
    let line = entry_line(Entry { orig: source, dest: grave });
    lemma_way_back_begins(graveyard, cwd, source, grave, entries);
    let u0 = unbury_step(graveyard, cwd, none, false, unbury_fresh(), EventView::Start);
    let u1 = unbury_step(graveyard, cwd, none, false, u0.0, EventView::Text(rendered(entries) + line));
    let u2 = unbury_step(graveyard, cwd, none, false, u1.0, EventView::Answer(false));
    let u3 = unbury_step(graveyard, cwd, none, false, u2.0, EventView::Done);
    let u4 = unbury_step(graveyard, cwd, none, false, u3.0, EventView::Done);
    let v0 = run_step(cli, env, run_fresh(), EventView::Start);
    assert(v0.0.graveyard == graveyard && v0.0.phase == RunPhase::Graveyard);
    let v1 = run_step(cli, env, v0.0, EventView::Answer(true));
    assert(v1.0.phase == RunPhase::Unbury && v1.0.unbury == u0.0 && v1.0.graveyard == graveyard);
    let v2 = run_step(cli, env, v1.0, EventView::Text(rendered(entries) + line));
    assert(v2.0.phase == RunPhase::Unbury && v2.0.unbury == u1.0 && v2.0.graveyard == graveyard);
    let v3 = run_step(cli, env, v2.0, EventView::Answer(false));
    assert(v3.0.phase == RunPhase::Unbury && v3.0.unbury == u2.0 && v3.0.graveyard == graveyard);
    let v4 = run_step(cli, env, v3.0, EventView::Done);
    assert(v4.0.phase == RunPhase::Unbury && v4.0.unbury == u3.0 && v4.0.graveyard == graveyard);
    let v5 = run_step(cli, env, v4.0, EventView::Done);
    assert(v5.0.phase == RunPhase::Unbury && v5.0.unbury == u4.0 && v5.0.graveyard == graveyard);
}

/// Two invocations, one that buries a file and one that brings back the last
/// burial, leave the file where it was and the record as it was. The graveyard is
/// there; the target is no link, is found at `source`, does not lie in the graveyard
/// and can be recorded; its place in the graveyard is free and unrecorded; both
/// renames succeed; the place where the file was is still free when it comes back.
/// The first invocation has the source renamed to its grave and the line of the two
/// added to the record. The second has that same grave renamed to the source, so
/// that nothing of it stays in the graveyard, and writes the record as it was before
/// the burial. Both end without failure.
pub proof fn lemma_round_trip_of_two_invocations(
    target: Seq<u8>,
    graveyard: Seq<u8>,
    env: EnvironmentView,
    meta: FileMeta,
    source: Seq<u8>,
    entries: Seq<Entry>,
)
    requires
        env.cwd is Some,
        meta.kind != FileKind::Symlink,
        !is_under(source, graveyard),
        recordable(source),
        recordable(grave_mapping(graveyard, source)),
        forall|i: int| 0 <= i < entries.len() ==> entry_recordable(#[trigger] entries[i]),
        forall|i: int|
            0 <= i < entries.len() ==> (#[trigger] entries[i]).dest != grave_mapping(
                graveyard,
                source,
            ),
    ensures
        ({
            let first = burying(target, graveyard);
            let second = bringing_back(graveyard);
            let grave = grave_mapping(graveyard, source);
            let file = joined(graveyard, record_name());
            let line = entry_line(Entry { orig: source, dest: grave });
            let r0 = run_step(first, env, run_fresh(), EventView::Start);
            let r1 = run_step(first, env, r0.0, EventView::Answer(true));
            let r2 = run_step(first, env, r1.0, EventView::Meta(meta));
            let r3 = run_step(first, env, r2.0, EventView::Text(source));
            let r4 = run_step(first, env, r3.0, EventView::Answer(false));
            let r5 = run_step(first, env, r4.0, EventView::Done);
            let r6 = run_step(first, env, r5.0, EventView::Done);
            let v0 = run_step(second, env, run_fresh(), EventView::Start);
            let v1 = run_step(second, env, v0.0, EventView::Answer(true));
            let v2 = run_step(second, env, v1.0, EventView::Text(rendered(entries) + line));
            let v3 = run_step(second, env, v2.0, EventView::Answer(false));
            let v4 = run_step(second, env, v3.0, EventView::Done);
            let v5 = run_step(second, env, v4.0, EventView::Done);
            let v6 = run_step(second, env, v5.0, EventView::Done);
            &&& r4.1 == StepView::<()>::Perform(request_pair(Op::Rename, source, grave))
            &&& r5.1 == StepView::<()>::Perform(request_pair(Op::AppendRecord, file, line))
            &&& r6.1 == StepView::<()>::Finished(Ok(()))
            &&& v1.1 == StepView::<()>::Perform(request(Op::ReadRecord, file))
            &&& v2.1 == StepView::<()>::Perform(request(Op::Exists, source))
            &&& v3.1 == StepView::<()>::Perform(request_pair(Op::Rename, grave, source))
            &&& v5.1 == StepView::<()>::Perform(
                request_pair(Op::WriteRecord, file, rendered(entries)),
            )
            &&& v6.1 == StepView::<()>::Finished(Ok(()))
        }),
{
    lemma_invocation_buries(target, graveyard, env, meta, source);
    lemma_invocation_brings_back(
        graveyard,
        env,
        source,
        grave_mapping(graveyard, source),
        entries,
    );
}

} // verus!
