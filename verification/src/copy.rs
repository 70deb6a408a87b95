//! The copy of one object that is not a directory, for the case that it cannot be
//! renamed into place. What is done depends on the object's kind, which is asked once
//! and not again.

use crate::host::{
    failure, request, request_number, request_pair, Action, ErrorKind, Event, EventView,
    Failure, FileKind, Op, Reason, Step, StepView,
};
use vstd::prelude::*;

verus! {

/// A file of more bytes than this is not copied: the user is asked whether to delete
/// it for good instead.
pub const BIG_FILE_THRESHOLD: u64 = 500000000;

/// How far the copy of one object has come.
#[derive(Clone, Copy, Debug, PartialEq, Eq, Structural)]
pub enum CopyState {
    /// Nothing was asked yet.
    Start,
    /// The stat of the source is awaited.
    Stat,
    /// The source is big; the answer to whether it is to be deleted instead is
    /// awaited.
    BigFile,
    /// The object is being made at the destination; if that fails, the copy fails.
    Writing,
    /// The source is a link; where it points is awaited.
    Link,
    /// The source is neither file, link nor pipe; a copy of its content is being
    /// tried.
    Special,
    /// That copy failed with `cause`; the answer to whether the source is to be
    /// deleted all the same is awaited.
    SpecialAnswer { cause: ErrorKind },
    /// A marker is being written in place of the source.
    Marker,
}

/// What a copy that succeeded has left at the destination.
#[derive(Clone, Copy, Debug, PartialEq, Eq, Structural)]
pub enum Copied {
    /// The object, or a marker in its place.
    Created,
    /// Nothing: the user chose to delete the source for good.
    Discarded,
}

/// The end of a copy with `result`; the engine is ready for the next one.
pub open spec fn copy_ends(result: Result<Copied, crate::host::FailureView>) -> (
    CopyState,
    StepView<Copied>,
) {
    (CopyState::Start, StepView::Finished(result))
}

/// The first action towards a copy at `dest`, for a source of the given kind and
/// permission bits: the content of a file is copied; a pipe is made with the same
/// permission bits; of a link the target is read; for anything else a copy of the
/// content is tried.
pub open spec fn copy_begins(source: Seq<u8>, dest: Seq<u8>, kind: FileKind, mode: u32) -> (
    CopyState,
    StepView<Copied>,
) {
    match kind {
        FileKind::Regular => (
            CopyState::Writing,
            StepView::Perform(request_pair(Op::CopyFile, source, dest)),
        ),
        FileKind::Fifo => (
            CopyState::Writing,
            StepView::Perform(request_number(Op::MakeFifo, dest, mode as u64)),
        ),
        FileKind::Symlink => (CopyState::Link, StepView::Perform(request(Op::ReadLink, source))),
        FileKind::Directory => (
            CopyState::Special,
            StepView::Perform(request_pair(Op::CopyFile, source, dest)),
        ),
        FileKind::Other => (
            CopyState::Special,
            StepView::Perform(request_pair(Op::CopyFile, source, dest)),
        ),
    }
}

/// What the copy of `source` to `dest` does next, in `state`, when `event` comes in.
pub open spec fn copy_step(source: Seq<u8>, dest: Seq<u8>, state: CopyState, event: EventView) -> (
    CopyState,
    StepView<Copied>,
) {
    match (state, event) {
        (CopyState::Start, _) => (CopyState::Stat, StepView::Perform(request(Op::Stat, source))),
        (CopyState::Stat, EventView::Meta(meta)) => if meta.size > BIG_FILE_THRESHOLD {
            (
                CopyState::BigFile,
                StepView::Perform(request_number(Op::ConfirmBigFile, source, meta.size)),
            )
        } else {
            copy_begins(source, dest, meta.kind, meta.mode)
        },
        (CopyState::Stat, EventView::Failed(kind)) => copy_ends(
            Err(failure(kind, Reason::Stat, source)),
        ),
        (CopyState::BigFile, EventView::Answer(yes)) => if yes {
            copy_ends(Ok(Copied::Discarded))
        } else {
            copy_ends(Err(failure(ErrorKind::InvalidInput, Reason::TooBig, source)))
        },
        (CopyState::BigFile, EventView::Failed(kind)) => copy_ends(
            Err(failure(kind, Reason::Prompt, source)),
        ),
        (CopyState::Link, EventView::Text(target)) => (
            CopyState::Writing,
            StepView::Perform(request_pair(Op::Symlink, target, dest)),
        ),
        (CopyState::Link, EventView::Failed(kind)) => copy_ends(
            Err(failure(kind, Reason::ReadLink, source)),
        ),
        (CopyState::Writing, EventView::Done) => copy_ends(Ok(Copied::Created)),
        (CopyState::Writing, EventView::Failed(kind)) => copy_ends(
            Err(failure(kind, Reason::Copy, dest)),
        ),
        (CopyState::Special, EventView::Done) => copy_ends(Ok(Copied::Created)),
        (CopyState::Special, EventView::Failed(cause)) => (
            CopyState::SpecialAnswer { cause },
            StepView::Perform(request(Op::ConfirmSpecialFile, source)),
        ),
        (CopyState::SpecialAnswer { cause }, EventView::Answer(yes)) => if yes {
            (CopyState::Marker, StepView::Perform(request(Op::WriteMarker, dest)))
        } else {
            copy_ends(Err(failure(cause, Reason::Copy, dest)))
        },
        (CopyState::SpecialAnswer { .. }, EventView::Failed(kind)) => copy_ends(
            Err(failure(kind, Reason::Prompt, source)),
        ),
        (CopyState::Marker, EventView::Done) => copy_ends(Ok(Copied::Created)),
        (CopyState::Marker, EventView::Failed(kind)) => copy_ends(
            Err(failure(kind, Reason::Marker, dest)),
        ),
        _ => copy_ends(Err(failure(ErrorKind::Internal, Reason::Protocol, source))),
    }
}

/// What the copy engine may ask of the host.
pub open spec fn copy_asks(op: Op) -> bool {
    op == Op::Stat || op == Op::ConfirmBigFile || op == Op::CopyFile || op == Op::MakeFifo || op
        == Op::ReadLink || op == Op::Symlink || op == Op::ConfirmSpecialFile || op
        == Op::WriteMarker
}

fn ends(result: Result<Copied, Failure>) -> (next: (CopyState, Step<Copied>))
    ensures
        next.0 == CopyState::Start,
        next.1@ == StepView::Finished(
            match result {
                Ok(c) => Ok(c),
                Err(f) => Err(f@),
            },
        ),
{
    (CopyState::Start, Step::Finished(result))
}

fn begins(source: &[u8], dest: &[u8], kind: FileKind, mode: u32) -> (next: (
    CopyState,
    Step<Copied>,
))
    ensures
        (next.0, next.1@) == copy_begins(source@, dest@, kind, mode),
{
    match kind {
        FileKind::Regular => (
            CopyState::Writing,
            Step::Perform(Action::pair(Op::CopyFile, source, dest)),
        ),
        FileKind::Fifo => (
            CopyState::Writing,
            Step::Perform(Action::with_number(Op::MakeFifo, dest, mode as u64)),
        ),
        FileKind::Symlink => (CopyState::Link, Step::Perform(Action::new(Op::ReadLink, source))),
        FileKind::Directory => (
            CopyState::Special,
            Step::Perform(Action::pair(Op::CopyFile, source, dest)),
        ),
        FileKind::Other => (
            CopyState::Special,
            Step::Perform(Action::pair(Op::CopyFile, source, dest)),
        ),
    }
}

/// One step of the copy of `source`, which is no directory, to `dest`.
///
/// The engine asks for the stat of the source. A source of more than
/// `BIG_FILE_THRESHOLD` bytes is not copied: the user is asked whether to delete it
/// for good instead; on yes the copy ends with `Discarded`, on no it fails with
/// `InvalidInput`, and either way nothing was asked for at `dest`. A regular file of
/// no more bytes than that is copied by content, a link is made anew with the
/// same target, a pipe is made anew with the same permission bits. For anything else
/// a copy by content is tried; if it fails, the user is asked whether to delete the
/// source all the same: on yes a marker is written at `dest`, on no the copy fails
/// with the cause of the failed attempt.
pub fn copy_file(source: &[u8], dest: &[u8], state: CopyState, event: Event) -> (next: (
    CopyState,
    Step<Copied>,
))
    ensures
        (next.0, next.1@) == copy_step(source@, dest@, state, event@),
{
    match (state, event) {
        (CopyState::Start, _) => (CopyState::Stat, Step::Perform(Action::new(Op::Stat, source))),
        (CopyState::Stat, Event::Meta(meta)) => {
            if meta.size > BIG_FILE_THRESHOLD {
                (
                    CopyState::BigFile,
                    Step::Perform(Action::with_number(Op::ConfirmBigFile, source, meta.size)),
                )
            } else {
                begins(source, dest, meta.kind, meta.mode)
            }
        },
        (CopyState::Stat, Event::Failed(kind)) => ends(
            Err(Failure::new(kind, Reason::Stat, source)),
        ),
        (CopyState::BigFile, Event::Answer(yes)) => {
            if yes {
                ends(Ok(Copied::Discarded))
            } else {
                ends(Err(Failure::new(ErrorKind::InvalidInput, Reason::TooBig, source)))
            }
        },
        (CopyState::BigFile, Event::Failed(kind)) => ends(
            Err(Failure::new(kind, Reason::Prompt, source)),
        ),
        (CopyState::Link, Event::Text(target)) => (
            CopyState::Writing,
            Step::Perform(Action::pair(Op::Symlink, target.as_slice(), dest)),
        ),
        (CopyState::Link, Event::Failed(kind)) => ends(
            Err(Failure::new(kind, Reason::ReadLink, source)),
        ),
        (CopyState::Writing, Event::Done) => ends(Ok(Copied::Created)),
        (CopyState::Writing, Event::Failed(kind)) => ends(
            Err(Failure::new(kind, Reason::Copy, dest)),
        ),
        (CopyState::Special, Event::Done) => ends(Ok(Copied::Created)),
        (CopyState::Special, Event::Failed(cause)) => (
            CopyState::SpecialAnswer { cause },
            Step::Perform(Action::new(Op::ConfirmSpecialFile, source)),
        ),
        (CopyState::SpecialAnswer { cause }, Event::Answer(yes)) => {
            if yes {
                (CopyState::Marker, Step::Perform(Action::new(Op::WriteMarker, dest)))
            } else {
                ends(Err(Failure::new(cause, Reason::Copy, dest)))
            }
        },
        (CopyState::SpecialAnswer { .. }, Event::Failed(kind)) => ends(
            Err(Failure::new(kind, Reason::Prompt, source)),
        ),
        (CopyState::Marker, Event::Done) => ends(Ok(Copied::Created)),
        (CopyState::Marker, Event::Failed(kind)) => ends(
            Err(Failure::new(kind, Reason::Marker, dest)),
        ),
        _ => ends(Err(Failure::new(ErrorKind::Internal, Reason::Protocol, source))),
    }
}

/// A big file is never copied, whatever the user answers: between the stat and the
/// end of the copy the engine asks the one question and nothing else, so nothing is
/// made at the destination. On yes the copy ends with `Discarded`; on no it ends
/// with the failure `TooBig`.
pub proof fn lemma_big_file_discarded(source: Seq<u8>, dest: Seq<u8>, meta: crate::host::FileMeta)
    requires
        meta.size > BIG_FILE_THRESHOLD,
    ensures
        ({
            let asked = copy_step(source, dest, CopyState::Stat, EventView::Meta(meta));
            &&& asked.1 == StepView::<Copied>::Perform(
                request_number(Op::ConfirmBigFile, source, meta.size),
            )
            &&& copy_step(source, dest, asked.0, EventView::Answer(true)) == copy_ends(
                Ok(Copied::Discarded),
            )
            &&& copy_step(source, dest, asked.0, EventView::Answer(false)) == copy_ends(
                Err(failure(ErrorKind::InvalidInput, Reason::TooBig, source)),
            )
        }),
{
}

/// The copy engine asks the host for nothing but stats, questions, and the making
/// of the copy.
pub proof fn lemma_copy_asks(source: Seq<u8>, dest: Seq<u8>, state: CopyState, event: EventView)
    ensures
        copy_step(source, dest, state, event).1 matches StepView::Perform(action) ==> copy_asks(
            action.op,
        ),
{
}

/// How many actions a copy in `state` may still ask for at most.
pub open spec fn copy_rank(state: CopyState) -> nat {
    match state {
        CopyState::Start => 6,
        CopyState::Stat => 5,
        CopyState::BigFile => 4,
        CopyState::Link => 3,
        CopyState::Special => 3,
        CopyState::SpecialAnswer { .. } => 2,
        CopyState::Writing => 1,
        CopyState::Marker => 1,
    }
}

/// Every copy comes to an end: whatever the host answers, each action that the
/// engine asks for leaves it fewer actions to ask for.
pub proof fn lemma_copy_comes_to_an_end(
    source: Seq<u8>,
    dest: Seq<u8>,
    state: CopyState,
    event: EventView,
)
    ensures
        copy_step(source, dest, state, event).1 is Perform ==> copy_rank(
            copy_step(source, dest, state, event).0,
        ) < copy_rank(state),
{
}

} // verus!
