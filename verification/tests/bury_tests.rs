use rip::bury::{bury_target, Buried, BuryPhase, BuryState};
use rip::host::{Action, ErrorKind, Event, Failure, FileKind, FileMeta, Op, Reason, Step};

const GY: &[u8] = b"/gy";
const CWD: &[u8] = b"/home/user";

fn ask(op: Op, path: &[u8], other: &[u8]) -> Step<Buried> {
    Step::Perform(Action { op, path: path.to_vec(), other: other.to_vec(), number: 0 })
}

fn fail(kind: ErrorKind, reason: Reason, path: &[u8]) -> Step<Buried> {
    Step::Finished(Err(Failure { kind, reason, path: path.to_vec(), other: Vec::new() }))
}

fn meta(kind: FileKind) -> Event {
    Event::Meta(FileMeta { kind, size: 10, mode: 0o644 })
}

/// Feeds the events to the burial of `target` and hands back every step.
fn bury_steps(target: &[u8], inspect: bool, events: Vec<Event>) -> Vec<Step<Buried>> {
    let mut state = BuryState::new();
    let mut steps = Vec::new();
    for event in events {
        let (next, step) = bury_target(target, GY, CWD, inspect, state, event);
        state = next;
        steps.push(step);
    }
    steps
}

#[test]
fn burial_moves_the_target_and_records_it() {
    let steps = bury_steps(
        b"a.txt",
        false,
        vec![
            Event::Start,
            meta(FileKind::Regular),
            Event::Text(b"/home/user/a.txt".to_vec()),
            Event::Answer(false),
            Event::Done,
            Event::Done,
        ],
    );
    assert_eq!(
        steps,
        vec![
            ask(Op::Stat, b"/home/user/a.txt", b""),
            ask(Op::Canonicalize, b"/home/user/a.txt", b""),
            ask(Op::Exists, b"/gy/home/user/a.txt", b""),
            ask(Op::Rename, b"/home/user/a.txt", b"/gy/home/user/a.txt"),
            ask(Op::AppendRecord, b"/gy/.record", b"/home/user/a.txt\t/gy/home/user/a.txt\n"),
            Step::Finished(Ok(Buried::Buried)),
        ]
    );
}

#[test]
fn burial_goes_by_the_canonical_path() {
    let steps = bury_steps(
        b"../other/b",
        false,
        vec![
            Event::Start,
            meta(FileKind::Directory),
            Event::Text(b"/home/other/b".to_vec()),
            Event::Answer(false),
        ],
    );
    assert_eq!(steps[0], ask(Op::Stat, b"/home/user/../other/b", b""));
    assert_eq!(steps[1], ask(Op::Canonicalize, b"/home/user/../other/b", b""));
    assert_eq!(steps[2], ask(Op::Exists, b"/gy/home/other/b", b""));
    assert_eq!(steps[3], ask(Op::Rename, b"/home/other/b", b"/gy/home/other/b"));
}

#[test]
fn link_is_not_brought_into_canonical_form() {
    let steps = bury_steps(b"/data/link", false, vec![Event::Start, meta(FileKind::Symlink), Event::Answer(false)]);
    assert_eq!(steps[1], ask(Op::Exists, b"/gy/data/link", b""));
    assert_eq!(steps[2], ask(Op::Rename, b"/data/link", b"/gy/data/link"));
}

#[test]
fn taken_places_are_passed_over_one_after_the_other() {
    let steps = bury_steps(
        b"/data/a",
        false,
        vec![
            Event::Start,
            meta(FileKind::Regular),
            Event::Text(b"/data/a".to_vec()),
            Event::Answer(true),
            Event::Answer(true),
            Event::Answer(true),
            Event::Answer(false),
            Event::Done,
        ],
    );
    assert_eq!(steps[2], ask(Op::Exists, b"/gy/data/a", b""));
    assert_eq!(steps[3], ask(Op::Exists, b"/gy/data/a~1", b""));
    assert_eq!(steps[4], ask(Op::Exists, b"/gy/data/a~2", b""));
    assert_eq!(steps[5], ask(Op::Exists, b"/gy/data/a~3", b""));
    assert_eq!(steps[6], ask(Op::Rename, b"/data/a", b"/gy/data/a~3"));
    assert_eq!(steps[7], ask(Op::AppendRecord, b"/gy/.record", b"/data/a\t/gy/data/a~3\n"));
}

#[test]
fn search_for_a_free_place_gives_up_when_the_numbers_run_out() {
    let state = BuryState {
        phase: BuryPhase::Probe,
        source: b"/data/a".to_vec(),
        dest: b"/gy/data/a".to_vec(),
        attempt: u64::MAX,
        ..BuryState::new()
    };
    let (_, step) = bury_target(b"/data/a", GY, CWD, false, state, Event::Answer(true));
    assert_eq!(step, fail(ErrorKind::Internal, Reason::NoFreeName, b"/gy/data/a"));
}

#[test]
fn last_name_is_still_tried() {
    let state = BuryState {
        phase: BuryPhase::Probe,
        source: b"/data/a".to_vec(),
        dest: b"/gy/data/a".to_vec(),
        attempt: u64::MAX - 1,
        ..BuryState::new()
    };
    let (_, step) = bury_target(b"/data/a", GY, CWD, false, state, Event::Answer(true));
    assert_eq!(step, ask(Op::Exists, b"/gy/data/a~18446744073709551615", b""));
}

#[test]
fn target_that_cannot_be_found_is_not_found() {
    let steps = bury_steps(b"ghost", false, vec![Event::Start, Event::Failed(ErrorKind::PermissionDenied)]);
    assert_eq!(steps[1], fail(ErrorKind::NotFound, Reason::NoSuchTarget, b"ghost"));
}

#[test]
fn path_that_cannot_be_brought_into_canonical_form_fails() {
    let steps = bury_steps(
        b"a",
        false,
        vec![Event::Start, meta(FileKind::Regular), Event::Failed(ErrorKind::PermissionDenied)],
    );
    assert_eq!(steps[2], fail(ErrorKind::PermissionDenied, Reason::Canonicalize, b"a"));
}

#[test]
fn target_in_the_graveyard_leads_to_the_question() {
    let steps = bury_steps(
        b"/gy/data/a",
        false,
        vec![
            Event::Start,
            meta(FileKind::Regular),
            Event::Text(b"/gy/data/a".to_vec()),
            Event::Answer(true),
            Event::Failed(ErrorKind::Io),
            Event::Done,
        ],
    );
    assert_eq!(
        steps,
        vec![
            ask(Op::Stat, b"/gy/data/a", b""),
            ask(Op::Canonicalize, b"/gy/data/a", b""),
            ask(Op::ConfirmUnlink, b"/gy/data/a", b""),
            ask(Op::RemoveDirAll, b"/gy/data/a", b""),
            ask(Op::RemoveFile, b"/gy/data/a", b""),
            Step::Finished(Ok(Buried::Unlinked)),
        ]
    );
}

#[test]
fn graveyard_itself_counts_as_lying_in_the_graveyard() {
    let steps = bury_steps(
        b"/gy",
        false,
        vec![Event::Start, meta(FileKind::Directory), Event::Text(b"/gy".to_vec())],
    );
    assert_eq!(steps[2], ask(Op::ConfirmUnlink, b"/gy", b""));
}

#[test]
fn neighbour_of_the_graveyard_is_buried() {
    let steps = bury_steps(
        b"/gyx/a",
        false,
        vec![Event::Start, meta(FileKind::Regular), Event::Text(b"/gyx/a".to_vec())],
    );
    assert_eq!(steps[2], ask(Op::Exists, b"/gy/gyx/a", b""));
}

#[test]
fn target_in_the_graveyard_that_cannot_be_unlinked_fails() {
    let steps = bury_steps(
        b"/gy/a",
        false,
        vec![
            Event::Start,
            meta(FileKind::Regular),
            Event::Text(b"/gy/a".to_vec()),
            Event::Answer(true),
            Event::Failed(ErrorKind::Io),
            Event::Failed(ErrorKind::PermissionDenied),
        ],
    );
    assert_eq!(steps[5], fail(ErrorKind::PermissionDenied, Reason::Unlink, b"/gy/a"));
}

#[test]
fn target_in_the_graveyard_is_skipped_on_no() {
    let steps = bury_steps(
        b"/gy/a",
        false,
        vec![
            Event::Start,
            meta(FileKind::Regular),
            Event::Text(b"/gy/a".to_vec()),
            Event::Answer(false),
            Event::Done,
        ],
    );
    assert_eq!(steps[3], ask(Op::TellSkipping, b"/gy/a", b""));
    assert_eq!(steps[4], Step::Finished(Ok(Buried::Skipped)));
}

#[test]
fn question_or_word_that_fails_ends_the_burial() {
    let begin = vec![Event::Start, meta(FileKind::Regular), Event::Text(b"/gy/a".to_vec())];
    let mut events = begin.iter().map(|e| copy(e)).collect::<Vec<_>>();
    events.push(Event::Failed(ErrorKind::Io));
    let steps = bury_steps(b"/gy/a", false, events);
    assert_eq!(steps[3], fail(ErrorKind::Io, Reason::Prompt, b"/gy/a"));
    let mut events = begin.iter().map(|e| copy(e)).collect::<Vec<_>>();
    events.push(Event::Answer(false));
    events.push(Event::Failed(ErrorKind::Io));
    let steps = bury_steps(b"/gy/a", false, events);
    assert_eq!(steps[4], fail(ErrorKind::Io, Reason::Tell, b"/gy/a"));
}

fn copy(event: &Event) -> Event {
    match event {
        Event::Start => Event::Start,
        Event::Done => Event::Done,
        Event::Failed(kind) => Event::Failed(*kind),
        Event::Meta(meta) => Event::Meta(*meta),
        Event::Answer(yes) => Event::Answer(*yes),
        Event::Text(text) => Event::Text(text.clone()),
        Event::Listing(_) => Event::Listing(Vec::new()),
        Event::Lines(lines) => Event::Lines(lines.clone()),
    }
}

#[test]
fn record_that_cannot_be_written_fails_the_burial() {
    let steps = bury_steps(
        b"/data/a",
        false,
        vec![
            Event::Start,
            meta(FileKind::Regular),
            Event::Text(b"/data/a".to_vec()),
            Event::Answer(false),
            Event::Done,
            Event::Failed(ErrorKind::PermissionDenied),
        ],
    );
    assert_eq!(steps[5], fail(ErrorKind::PermissionDenied, Reason::Record, b"/gy/.record"));
}

#[test]
fn failure_of_the_move_is_handed_on() {
    let steps = bury_steps(
        b"/data/a",
        false,
        vec![
            Event::Start,
            meta(FileKind::Regular),
            Event::Text(b"/data/a".to_vec()),
            Event::Answer(false),
            Event::Failed(ErrorKind::Io),
            Event::Failed(ErrorKind::PermissionDenied),
        ],
    );
    assert_eq!(steps[4], ask(Op::CreateDirAll, b"/gy/data", b""));
    assert_eq!(
        steps[5],
        fail(ErrorKind::PermissionDenied, Reason::CreateParent, b"/gy/data/a")
    );
}

#[test]
fn inspection_comes_before_the_search_for_a_place() {
    let steps = bury_steps(
        b"/data/a",
        true,
        vec![
            Event::Start,
            Event::Meta(FileMeta { kind: FileKind::Regular, size: 2048, mode: 0o644 }),
            Event::Text(b"/data/a".to_vec()),
            Event::Done,
            Event::Lines(vec![b"first".to_vec()]),
            Event::Done,
            Event::Answer(true),
        ],
    );
    assert_eq!(
        steps[2],
        Step::Perform(Action {
            op: Op::TellFile,
            path: b"/data/a".to_vec(),
            other: Vec::new(),
            number: 2048
        })
    );
    assert_eq!(
        steps[3],
        Step::Perform(Action {
            op: Op::ReadLines,
            path: b"/data/a".to_vec(),
            other: Vec::new(),
            number: 6
        })
    );
    assert_eq!(steps[4], ask(Op::TellLine, b"first", b""));
    assert_eq!(steps[5], ask(Op::ConfirmBury, b"/data/a", b""));
    assert_eq!(steps[6], ask(Op::Exists, b"/gy/data/a", b""));
}

#[test]
fn inspection_that_is_declined_ends_the_burial() {
    let steps = bury_steps(
        b"/data/a",
        true,
        vec![
            Event::Start,
            meta(FileKind::Regular),
            Event::Text(b"/data/a".to_vec()),
            Event::Done,
            Event::Lines(Vec::new()),
            Event::Answer(false),
        ],
    );
    assert_eq!(steps[5], Step::Finished(Ok(Buried::Declined)));
}

#[test]
fn event_that_does_not_fit_the_burial_is_a_defect() {
    let steps = bury_steps(b"/data/a", false, vec![Event::Start, Event::Done]);
    assert_eq!(steps[1], fail(ErrorKind::Internal, Reason::Protocol, b"/data/a"));
    let steps = bury_steps(
        b"/data/a",
        false,
        vec![
            Event::Start,
            meta(FileKind::Regular),
            Event::Text(b"/data/a".to_vec()),
            Event::Done,
        ],
    );
    assert_eq!(steps[3], fail(ErrorKind::Internal, Reason::Protocol, b"/data/a"));
}
