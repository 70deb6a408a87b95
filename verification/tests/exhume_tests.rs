use rip::exhume::{seance, select_graves, unbury, SeanceState, UnburyState};
use rip::host::{Action, ErrorKind, Event, Failure, Op, Reason, Step};
use rip::record::Record;

const GY: &[u8] = b"/gy";
const CWD: &[u8] = b"/home/a";
const RECORD: &[u8] = b"/home/a/x\t/gy/home/a/x\n/home/b/y\t/gy/home/b/y\n/home/a/z\t/gy/home/a/z\n";

fn ask(op: Op, path: &[u8], other: &[u8]) -> Step<usize> {
    Step::Perform(Action { op, path: path.to_vec(), other: other.to_vec(), number: 0 })
}

fn fail(kind: ErrorKind, reason: Reason, path: &[u8], other: &[u8]) -> Step<usize> {
    Step::Finished(Err(Failure { kind, reason, path: path.to_vec(), other: other.to_vec() }))
}

fn graves(paths: &[&str]) -> Vec<Vec<u8>> {
    paths.iter().map(|p| p.as_bytes().to_vec()).collect()
}

/// Feeds the events to the way back and hands back every step.
fn unbury_steps(named: &[&str], also_prefix: bool, events: Vec<Event>) -> Vec<Step<usize>> {
    let named = graves(named);
    let mut state = UnburyState::new();
    let mut steps = Vec::new();
    for event in events {
        let (next, step) = unbury(GY, CWD, &named, also_prefix, state, event);
        state = next;
        steps.push(step);
    }
    steps
}

/// Feeds the events to the listing of graves and hands back every step.
fn seance_steps(events: Vec<Event>) -> Vec<Step<usize>> {
    let mut state = SeanceState::new();
    let mut steps = Vec::new();
    for event in events {
        let (next, step) = seance(GY, CWD, state, event);
        state = next;
        steps.push(step);
    }
    steps
}

#[test]
fn named_graves_are_chosen_as_named() {
    let record = Record::parse(RECORD);
    assert_eq!(
        select_graves(&record, &graves(&["/gy/home/b/y", "/gy/stale"]), false, b"/gy/home/a"),
        graves(&["/gy/home/b/y", "/gy/stale"])
    );
}

#[test]
fn graves_under_the_prefix_are_added_on_demand() {
    let record = Record::parse(RECORD);
    assert_eq!(
        select_graves(&record, &graves(&["/gy/home/b/y"]), true, b"/gy/home/a"),
        graves(&["/gy/home/b/y", "/gy/home/a/x", "/gy/home/a/z"])
    );
    assert_eq!(
        select_graves(&record, &graves(&[]), true, b"/gy/home/b"),
        graves(&["/gy/home/b/y"])
    );
}

#[test]
fn last_grave_is_chosen_when_none_is_named() {
    let record = Record::parse(RECORD);
    assert_eq!(select_graves(&record, &graves(&[]), false, b"/gy/home/a"), graves(&["/gy/home/a/z"]));
    assert_eq!(select_graves(&record, &graves(&[]), true, b"/gy/none"), graves(&["/gy/home/a/z"]));
}

#[test]
fn nothing_is_chosen_from_an_empty_record() {
    let record = Record::new();
    assert_eq!(select_graves(&record, &graves(&[]), true, b"/gy"), graves(&[]));
    assert_eq!(select_graves(&record, &graves(&["/gy/a"]), false, b"/gy"), graves(&["/gy/a"]));
}

#[test]
fn way_back_of_the_last_burial() {
    let steps = unbury_steps(
        &[],
        false,
        vec![
            Event::Start,
            Event::Text(RECORD.to_vec()),
            Event::Answer(false),
            Event::Done,
            Event::Done,
            Event::Done,
        ],
    );
    assert_eq!(
        steps,
        vec![
            ask(Op::ReadRecord, b"/gy/.record", b""),
            ask(Op::Exists, b"/home/a/z", b""),
            ask(Op::Rename, b"/gy/home/a/z", b"/home/a/z"),
            ask(Op::TellReturned, b"/gy/home/a/z", b"/home/a/z"),
            ask(
                Op::WriteRecord,
                b"/gy/.record",
                b"/home/a/x\t/gy/home/a/x\n/home/b/y\t/gy/home/b/y\n"
            ),
            Step::Finished(Ok(1)),
        ]
    );
}

#[test]
fn way_back_goes_in_the_order_of_the_record() {
    let steps = unbury_steps(
        &["/gy/home/a/z", "/gy/home/a/x"],
        false,
        vec![
            Event::Start,
            Event::Text(RECORD.to_vec()),
            Event::Answer(false),
            Event::Done,
            Event::Done,
            Event::Answer(false),
            Event::Done,
            Event::Done,
            Event::Done,
        ],
    );
    assert_eq!(steps[2], ask(Op::Rename, b"/gy/home/a/x", b"/home/a/x"));
    assert_eq!(steps[5], ask(Op::Rename, b"/gy/home/a/z", b"/home/a/z"));
    assert_eq!(steps[7], ask(Op::WriteRecord, b"/gy/.record", b"/home/b/y\t/gy/home/b/y\n"));
    assert_eq!(steps[8], Step::Finished(Ok(2)));
}

#[test]
fn place_that_is_taken_again_is_passed_over() {
    let steps = unbury_steps(
        &["/gy/home/b/y"],
        false,
        vec![
            Event::Start,
            Event::Text(RECORD.to_vec()),
            Event::Answer(true),
            Event::Answer(true),
            Event::Answer(false),
            Event::Done,
        ],
    );
    assert_eq!(steps[1], ask(Op::Exists, b"/home/b/y", b""));
    assert_eq!(steps[2], ask(Op::Exists, b"/home/b/y~1", b""));
    assert_eq!(steps[3], ask(Op::Exists, b"/home/b/y~2", b""));
    assert_eq!(steps[4], ask(Op::Rename, b"/gy/home/b/y", b"/home/b/y~2"));
    assert_eq!(steps[5], ask(Op::TellReturned, b"/gy/home/b/y", b"/home/b/y~2"));
}

#[test]
fn record_that_cannot_be_read_counts_as_empty() {
    let steps = unbury_steps(&["/gy/home/a/x"], true, vec![Event::Start, Event::Failed(ErrorKind::NotFound)]);
    assert_eq!(steps[1], Step::Finished(Ok(0)));
}

#[test]
fn stale_names_alone_empty_no_grave_and_write_nothing() {
    let steps = unbury_steps(&["/gy/stale"], false, vec![Event::Start, Event::Text(RECORD.to_vec())]);
    assert_eq!(steps[1], Step::Finished(Ok(0)));
}

#[test]
fn move_that_fails_at_the_first_grave_writes_nothing() {
    let steps = unbury_steps(
        &["/gy/home/a/x", "/gy/home/b/y"],
        false,
        vec![
            Event::Start,
            Event::Text(RECORD.to_vec()),
            Event::Answer(false),
            Event::Failed(ErrorKind::Io),
            Event::Failed(ErrorKind::PermissionDenied),
        ],
    );
    assert_eq!(steps[3], ask(Op::CreateDirAll, b"/home/a", b""));
    assert_eq!(
        steps[4],
        fail(ErrorKind::PermissionDenied, Reason::CreateParent, b"/home/a/x", b"")
    );
}

#[test]
fn move_that_fails_later_writes_the_record_without_the_emptied_graves() {
    let steps = unbury_steps(
        &["/gy/home/a/x", "/gy/home/b/y"],
        false,
        vec![
            Event::Start,
            Event::Text(RECORD.to_vec()),
            Event::Answer(false),
            Event::Done,
            Event::Done,
            Event::Answer(false),
            Event::Failed(ErrorKind::Io),
            Event::Failed(ErrorKind::PermissionDenied),
            Event::Done,
        ],
    );
    assert_eq!(
        steps[7],
        ask(
            Op::WriteRecord,
            b"/gy/.record",
            b"/home/b/y\t/gy/home/b/y\n/home/a/z\t/gy/home/a/z\n"
        )
    );
    assert_eq!(
        steps[8],
        fail(ErrorKind::PermissionDenied, Reason::CreateParent, b"/home/b/y", b"")
    );
}

#[test]
fn word_that_fails_still_counts_the_grave_as_emptied() {
    let steps = unbury_steps(
        &[],
        false,
        vec![
            Event::Start,
            Event::Text(RECORD.to_vec()),
            Event::Answer(false),
            Event::Done,
            Event::Failed(ErrorKind::Io),
            Event::Done,
        ],
    );
    assert_eq!(
        steps[4],
        ask(Op::WriteRecord, b"/gy/.record", b"/home/a/x\t/gy/home/a/x\n/home/b/y\t/gy/home/b/y\n")
    );
    assert_eq!(steps[5], fail(ErrorKind::Io, Reason::Tell, b"/gy/home/a/z", b""));
}

#[test]
fn record_that_cannot_be_written_fails_the_way_back() {
    let steps = unbury_steps(
        &[],
        false,
        vec![
            Event::Start,
            Event::Text(RECORD.to_vec()),
            Event::Answer(false),
            Event::Done,
            Event::Done,
            Event::Failed(ErrorKind::PermissionDenied),
        ],
    );
    assert_eq!(steps[5], fail(ErrorKind::PermissionDenied, Reason::Record, b"/gy/.record", b""));
}

#[test]
fn first_failure_is_the_one_reported() {
    let steps = unbury_steps(
        &[],
        false,
        vec![
            Event::Start,
            Event::Text(RECORD.to_vec()),
            Event::Answer(false),
            Event::Done,
            Event::Failed(ErrorKind::Io),
            Event::Failed(ErrorKind::PermissionDenied),
        ],
    );
    assert_eq!(steps[5], fail(ErrorKind::Io, Reason::Tell, b"/gy/home/a/z", b""));
}

#[test]
fn answer_that_does_not_fit_the_way_back_is_a_defect() {
    let steps = unbury_steps(&[], false, vec![Event::Start, Event::Text(RECORD.to_vec()), Event::Done]);
    assert_eq!(steps[2], fail(ErrorKind::Internal, Reason::Protocol, b"/gy/.record", b""));
}

#[test]
fn seance_names_the_graves_under_the_current_directory() {
    let steps = seance_steps(vec![Event::Start, Event::Text(RECORD.to_vec()), Event::Done, Event::Done]);
    assert_eq!(
        steps,
        vec![
            ask(Op::ReadRecord, b"/gy/.record", b""),
            ask(Op::TellGrave, b"/gy/home/a/x", b""),
            ask(Op::TellGrave, b"/gy/home/a/z", b""),
            Step::Finished(Ok(2)),
        ]
    );
}

#[test]
fn seance_of_an_unreadable_record_names_nothing() {
    let steps = seance_steps(vec![Event::Start, Event::Failed(ErrorKind::NotFound)]);
    assert_eq!(steps[1], Step::Finished(Ok(0)));
}

#[test]
fn seance_that_cannot_speak_fails() {
    let steps = seance_steps(vec![Event::Start, Event::Text(RECORD.to_vec()), Event::Failed(ErrorKind::Io)]);
    assert_eq!(steps[2], fail(ErrorKind::Io, Reason::Tell, b"/gy/.record", b""));
    let steps = seance_steps(vec![Event::Start, Event::Text(RECORD.to_vec()), Event::Answer(true)]);
    assert_eq!(steps[2], fail(ErrorKind::Internal, Reason::Protocol, b"/gy/.record", b""));
}
