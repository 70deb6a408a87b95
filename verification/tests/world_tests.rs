use rip::args::Args;
use rip::dispatch::{Environment, RunState};
use rip::host::{Action, ErrorKind, Event, Failure, FileKind, FileMeta, Op, Reason, Step, WalkEntry};
use rip::relocate::{MoveState, Moved};
use rip::{move_target, run, BIG_FILE_THRESHOLD};
use std::collections::{BTreeMap, VecDeque};

#[derive(Clone, Debug, PartialEq)]
enum Node {
    File(Vec<u8>),
    Dir,
    Link(Vec<u8>),
    Fifo(u32),
    Socket,
    Marker,
}

/// A filesystem, a terminal and a user, all in memory.
struct World {
    nodes: BTreeMap<Vec<u8>, Node>,
    /// Whether every rename fails, as it does between two filesystems.
    cross_device: bool,
    /// Sizes that the stat reports in place of the length of the content.
    sizes: BTreeMap<Vec<u8>, u64>,
    /// Sources whose content cannot be copied.
    unreadable: Vec<Vec<u8>>,
    /// Objects that cannot be removed.
    undeletable: Vec<Vec<u8>>,
    /// What the user will answer, in order; when nothing is left, no.
    answers: VecDeque<bool>,
    asked: Vec<(Op, String)>,
    told: Vec<(Op, String, String, u64)>,
    actions: Vec<Op>,
    help_printed: bool,
}

fn p(text: &str) -> Vec<u8> {
    text.as_bytes().to_vec()
}

fn s(bytes: &[u8]) -> String {
    String::from_utf8(bytes.to_vec()).unwrap()
}

fn parent_of(path: &[u8]) -> Vec<u8> {
    match path.iter().rposition(|b| *b == b'/') {
        Some(0) => b"/".to_vec(),
        Some(at) => path[..at].to_vec(),
        None => Vec::new(),
    }
}

fn below(path: &[u8], root: &[u8]) -> bool {
    path.len() > root.len() && path.starts_with(root) && (root.ends_with(b"/") || path[root.len()] == b'/')
}

impl World {
    fn new() -> World {
        let mut nodes = BTreeMap::new();
        nodes.insert(p("/"), Node::Dir);
        World {
            nodes,
            cross_device: false,
            sizes: BTreeMap::new(),
            unreadable: Vec::new(),
            undeletable: Vec::new(),
            answers: VecDeque::new(),
            asked: Vec::new(),
            told: Vec::new(),
            actions: Vec::new(),
            help_printed: false,
        }
    }

    fn dir(&mut self, path: &str) {
        let path = p(path);
        let mut at = 1;
        while at <= path.len() {
            if at == path.len() || path[at] == b'/' {
                self.nodes.entry(path[..at].to_vec()).or_insert(Node::Dir);
            }
            at += 1;
        }
    }

    fn file(&mut self, path: &str, content: &str) {
        self.dir(&s(&parent_of(path.as_bytes())));
        self.nodes.insert(p(path), Node::File(p(content)));
    }

    fn put(&mut self, path: &str, node: Node) {
        self.dir(&s(&parent_of(path.as_bytes())));
        self.nodes.insert(p(path), node);
    }

    fn get(&self, path: &str) -> Option<&Node> {
        self.nodes.get(path.as_bytes())
    }

    fn content(&self, path: &str) -> Option<String> {
        match self.get(path) {
            Some(Node::File(bytes)) => Some(s(bytes)),
            _ => None,
        }
    }

    fn has(&self, path: &str) -> bool {
        self.nodes.contains_key(path.as_bytes())
    }

    fn is_dir(&self, path: &[u8]) -> bool {
        path.is_empty() || self.nodes.get(path) == Some(&Node::Dir)
    }

    fn subtree(&self, root: &[u8]) -> Vec<Vec<u8>> {
        self.nodes.keys().filter(|k| k.as_slice() == root || below(k, root)).cloned().collect()
    }

    fn meta(&self, path: &[u8]) -> Option<FileMeta> {
        let node = self.nodes.get(path)?;
        let (kind, size, mode) = match node {
            Node::File(bytes) => (FileKind::Regular, bytes.len() as u64, 0o644),
            Node::Marker => (FileKind::Regular, 0, 0o644),
            Node::Dir => (FileKind::Directory, 4096, 0o755),
            Node::Link(target) => (FileKind::Symlink, target.len() as u64, 0o777),
            Node::Fifo(mode) => (FileKind::Fifo, 0, *mode),
            Node::Socket => (FileKind::Other, 0, 0o600),
        };
        let size = self.sizes.get(path).copied().unwrap_or(size);
        Some(FileMeta { kind, size, mode })
    }

    fn place(&mut self, path: &[u8], node: Node) -> Event {
        if !self.is_dir(&parent_of(path)) {
            return Event::Failed(ErrorKind::NotFound);
        }
        self.nodes.insert(path.to_vec(), node);
        Event::Done
    }

    fn perform(&mut self, action: &Action) -> Event {
        self.actions.push(action.op);
        let path = action.path.as_slice();
        let other = action.other.as_slice();
        match action.op {
            Op::Stat => match self.meta(path) {
                Some(meta) => Event::Meta(meta),
                None => Event::Failed(ErrorKind::NotFound),
            },
            Op::Exists => Event::Answer(self.nodes.contains_key(path)),
            Op::Canonicalize => {
                if self.nodes.contains_key(path) {
                    Event::Text(path.to_vec())
                } else {
                    Event::Failed(ErrorKind::NotFound)
                }
            }
            Op::Rename => {
                if self.cross_device {
                    return Event::Failed(ErrorKind::Io);
                }
                if !self.nodes.contains_key(path) || !self.is_dir(&parent_of(other)) {
                    return Event::Failed(ErrorKind::NotFound);
                }
                for key in self.subtree(path) {
                    let node = self.nodes.remove(&key).unwrap();
                    let mut moved = other.to_vec();
                    moved.extend_from_slice(&key[path.len()..]);
                    self.nodes.insert(moved, node);
                }
                Event::Done
            }
            Op::CreateDirAll => {
                let mut at = 1;
                while at <= path.len() {
                    if at == path.len() || path[at] == b'/' {
                        match self.nodes.get(&path[..at]) {
                            None => {
                                self.nodes.insert(path[..at].to_vec(), Node::Dir);
                            }
                            Some(Node::Dir) => {}
                            Some(_) => return Event::Failed(ErrorKind::AlreadyExists),
                        }
                    }
                    at += 1;
                }
                Event::Done
            }
            Op::Walk => {
                if self.nodes.get(path) != Some(&Node::Dir) {
                    return Event::Failed(ErrorKind::NotFound);
                }
                let mut entries = Vec::new();
                for key in self.subtree(path) {
                    let meta = self.meta(&key).unwrap();
                    let depth = key[path.len()..].iter().filter(|b| **b == b'/').count();
                    entries.push(WalkEntry { path: key, kind: meta.kind, depth, size: Some(meta.size) });
                }
                Event::Listing(entries)
            }
            Op::CopyFile => {
                if self.unreadable.iter().any(|u| u.as_slice() == path) {
                    return Event::Failed(ErrorKind::PermissionDenied);
                }
                match self.nodes.get(path).cloned() {
                    Some(Node::File(bytes)) => self.place(other, Node::File(bytes)),
                    Some(Node::Marker) => self.place(other, Node::Marker),
                    Some(_) => Event::Failed(ErrorKind::InvalidInput),
                    None => Event::Failed(ErrorKind::NotFound),
                }
            }
            Op::MakeFifo => self.place(path, Node::Fifo(action.number as u32)),
            Op::ReadLink => match self.nodes.get(path) {
                Some(Node::Link(target)) => Event::Text(target.clone()),
                _ => Event::Failed(ErrorKind::InvalidInput),
            },
            Op::Symlink => self.place(other, Node::Link(path.to_vec())),
            Op::WriteMarker => self.place(path, Node::Marker),
            Op::RemoveFile | Op::RemoveDirAll
                if self.undeletable.iter().any(|u| u.as_slice() == path) =>
            {
                Event::Failed(ErrorKind::PermissionDenied)
            }
            Op::RemoveFile => match self.nodes.get(path) {
                Some(Node::Dir) => Event::Failed(ErrorKind::Io),
                Some(_) => {
                    self.nodes.remove(path);
                    Event::Done
                }
                None => Event::Failed(ErrorKind::NotFound),
            },
            Op::RemoveDir => {
                if self.nodes.get(path) != Some(&Node::Dir) {
                    return Event::Failed(ErrorKind::NotFound);
                }
                if self.subtree(path).len() > 1 {
                    return Event::Failed(ErrorKind::Io);
                }
                self.nodes.remove(path);
                Event::Done
            }
            Op::RemoveDirAll => {
                if self.nodes.get(path) != Some(&Node::Dir) {
                    return Event::Failed(ErrorKind::NotFound);
                }
                for key in self.subtree(path) {
                    self.nodes.remove(&key);
                }
                Event::Done
            }
            Op::ReadRecord => match self.nodes.get(path) {
                Some(Node::File(bytes)) => Event::Text(bytes.clone()),
                _ => Event::Failed(ErrorKind::NotFound),
            },
            Op::AppendRecord => {
                let mut bytes = match self.nodes.get(path) {
                    Some(Node::File(bytes)) => bytes.clone(),
                    _ => Vec::new(),
                };
                bytes.extend_from_slice(other);
                self.place(path, Node::File(bytes))
            }
            Op::WriteRecord => self.place(path, Node::File(other.to_vec())),
            Op::ReadLines => match self.nodes.get(path) {
                Some(Node::File(bytes)) => Event::Lines(
                    s(bytes).lines().take(action.number as usize).map(|l| p(l)).collect(),
                ),
                _ => Event::Failed(ErrorKind::InvalidInput),
            },
            Op::ConfirmBigFile
            | Op::ConfirmSpecialFile
            | Op::ConfirmUnlink
            | Op::ConfirmBury
            | Op::ConfirmDecompose => {
                self.asked.push((action.op, s(path)));
                Event::Answer(self.answers.pop_front().unwrap_or(false))
            }
            Op::TellSkipping
            | Op::TellReturned
            | Op::TellGrave
            | Op::TellDirectory
            | Op::TellFile
            | Op::TellChild
            | Op::TellLine
            | Op::TellUnreadable => {
                self.told.push((action.op, s(path), s(other), action.number));
                Event::Done
            }
            Op::PrintHelp => {
                self.help_printed = true;
                Event::Done
            }
        }
    }

    /// Runs one invocation to its end.
    fn run(&mut self, cli: &Args, env: &Environment) -> Result<(), Failure> {
        let mut state = RunState::new();
        let mut event = Event::Start;
        for _ in 0..100_000 {
            let (next, step) = run(cli, env, state, event);
            state = next;
            match step {
                Step::Perform(action) => event = self.perform(&action),
                Step::Finished(result) => return result,
            }
        }
        panic!("the invocation does not end");
    }

    /// Runs one move to its end.
    fn relocate(&mut self, target: &str, dest: &str) -> Result<Moved, Failure> {
        let mut state = MoveState::new();
        let mut event = Event::Start;
        for _ in 0..100_000 {
            let (next, step) = move_target(target.as_bytes(), dest.as_bytes(), state, event);
            state = next;
            match step {
                Step::Perform(action) => event = self.perform(&action),
                Step::Finished(result) => return result,
            }
        }
        panic!("the move does not end");
    }
}

fn env_at(cwd: &str) -> Environment {
    Environment { graveyard: None, data_home: None, user: Some(p("tester")), cwd: Some(p(cwd)) }
}

fn bury(targets: &[&str]) -> Args {
    Args {
        targets: targets.iter().map(|t| p(t)).collect(),
        graveyard: Some(p("/gy")),
        ..Args::default()
    }
}

fn unbury(graves: &[&str]) -> Args {
    Args {
        unbury: Some(graves.iter().map(|t| p(t)).collect()),
        graveyard: Some(p("/gy")),
        ..Args::default()
    }
}

#[test]
fn test_bury_unbury() {
    let mut world = World::new();
    world.file("/data/test_file.txt", "kY3vR8pQ1xZbN0aLmT5s");
    world.run(&bury(&["/data/test_file.txt"]), &env_at("/")).unwrap();
    assert!(!world.has("/data/test_file.txt"));
    assert!(world.has("/gy"));
    assert_eq!(world.content("/gy/data/test_file.txt").unwrap(), "kY3vR8pQ1xZbN0aLmT5s");
    assert_eq!(
        world.content("/gy/.record").unwrap(),
        "/data/test_file.txt\t/gy/data/test_file.txt\n"
    );

    world.run(&unbury(&[]), &env_at("/")).unwrap();
    assert_eq!(world.content("/data/test_file.txt").unwrap(), "kY3vR8pQ1xZbN0aLmT5s");
    assert!(!world.has("/gy/data/test_file.txt"));
    assert_eq!(world.content("/gy/.record").unwrap(), "");
    assert_eq!(
        world.told,
        vec![(Op::TellReturned, "/gy/data/test_file.txt".to_string(), "/data/test_file.txt".to_string(), 0)]
    );
}

#[test]
fn test_bury_decompose() {
    let mut world = World::new();
    world.file("/data/test_file.txt", "content");
    world.run(&bury(&["/data/test_file.txt"]), &env_at("/")).unwrap();
    assert_eq!(world.content("/gy/data/test_file.txt").unwrap(), "content");

    world.answers.push_back(true);
    let cli = Args { decompose: true, graveyard: Some(p("/gy")), ..Args::default() };
    world.run(&cli, &env_at("/")).unwrap();
    assert_eq!(world.asked, vec![(Op::ConfirmDecompose, "/gy".to_string())]);
    assert!(!world.has("/gy"));
    assert!(!world.has("/gy/data/test_file.txt"));
    assert!(!world.has("/data/test_file.txt"));
}

#[test]
fn decompose_that_is_declined_keeps_the_graveyard() {
    let mut world = World::new();
    world.file("/data/a", "content");
    world.run(&bury(&["/data/a"]), &env_at("/")).unwrap();
    world.answers.push_back(false);
    let cli = Args { decompose: true, graveyard: Some(p("/gy")), ..Args::default() };
    world.run(&cli, &env_at("/")).unwrap();
    assert_eq!(world.content("/gy/data/a").unwrap(), "content");
}

#[test]
fn decompose_needs_no_current_directory() {
    let mut world = World::new();
    world.answers.push_back(true);
    let cli = Args { decompose: true, graveyard: Some(p("/gy")), ..Args::default() };
    let env = Environment { graveyard: None, data_home: None, user: None, cwd: None };
    world.run(&cli, &env).unwrap();
    assert!(!world.has("/gy"));
}

#[test]
fn test_env_graveyard() {
    let mut world = World::new();
    world.file("/data/test_file.txt", "content");
    let env = Environment {
        graveyard: Some(p("/env/graveyard")),
        data_home: Some(p("/xdg")),
        user: Some(p("tester")),
        cwd: Some(p("/")),
    };
    let cli = Args { targets: vec![p("/data/test_file.txt")], ..Args::default() };
    world.run(&cli, &env).unwrap();
    assert!(!world.has("/data/test_file.txt"));
    assert_eq!(world.content("/env/graveyard/data/test_file.txt").unwrap(), "content");
}

#[test]
fn test_env_xdg_data_home() {
    let mut world = World::new();
    world.file("/data/test_file.txt", "content");
    let env = Environment {
        graveyard: None,
        data_home: Some(p("/xdg")),
        user: Some(p("tester")),
        cwd: Some(p("/")),
    };
    let cli = Args { targets: vec![p("/data/test_file.txt")], ..Args::default() };
    world.run(&cli, &env).unwrap();
    assert!(!world.has("/data/test_file.txt"));
    assert_eq!(world.content("/xdg/graveyard/data/test_file.txt").unwrap(), "content");
}

#[test]
fn graveyard_on_the_command_line_goes_before_the_environment() {
    let mut world = World::new();
    world.file("/data/a", "content");
    let env = Environment {
        graveyard: Some(p("/env/graveyard")),
        data_home: Some(p("/xdg")),
        user: None,
        cwd: Some(p("/")),
    };
    world.run(&bury(&["/data/a"]), &env).unwrap();
    assert_eq!(world.content("/gy/data/a").unwrap(), "content");
    assert!(!world.has("/env/graveyard"));
}

#[test]
fn default_graveyard_carries_the_name_of_the_user() {
    let mut world = World::new();
    world.file("/data/a", "one");
    world.file("/data/b", "two");
    let cli = Args { targets: vec![p("/data/a")], ..Args::default() };
    world.run(&cli, &env_at("/")).unwrap();
    assert_eq!(world.content("/tmp/graveyard-tester/data/a").unwrap(), "one");
    let cli = Args { targets: vec![p("/data/b")], ..Args::default() };
    let env = Environment { graveyard: None, data_home: None, user: None, cwd: Some(p("/")) };
    world.run(&cli, &env).unwrap();
    assert_eq!(world.content("/tmp/graveyard-unknown/data/b").unwrap(), "two");
}

#[test]
fn relative_target_is_found_from_the_current_directory() {
    let mut world = World::new();
    world.file("/home/user/notes/a.txt", "note");
    world.run(&bury(&["notes/a.txt"]), &env_at("/home/user")).unwrap();
    assert!(!world.has("/home/user/notes/a.txt"));
    assert_eq!(world.content("/gy/home/user/notes/a.txt").unwrap(), "note");
}

#[test]
fn round_trip_across_filesystems_keeps_the_content() {
    let mut world = World::new();
    world.cross_device = true;
    world.file("/data/a.txt", "exactly this");
    world.run(&bury(&["/data/a.txt"]), &env_at("/")).unwrap();
    assert!(!world.has("/data/a.txt"));
    assert_eq!(world.content("/gy/data/a.txt").unwrap(), "exactly this");
    world.run(&unbury(&[]), &env_at("/")).unwrap();
    assert_eq!(world.content("/data/a.txt").unwrap(), "exactly this");
    assert!(!world.has("/gy/data/a.txt"));
    assert_eq!(world.content("/gy/.record").unwrap(), "");
}

#[test]
fn two_burials_of_one_path_get_two_graves() {
    let mut world = World::new();
    world.file("/data/a", "first");
    world.run(&bury(&["/data/a"]), &env_at("/")).unwrap();
    world.file("/data/a", "second");
    world.run(&bury(&["/data/a"]), &env_at("/")).unwrap();
    world.file("/data/a", "third");
    world.run(&bury(&["/data/a"]), &env_at("/")).unwrap();
    assert_eq!(world.content("/gy/data/a").unwrap(), "first");
    assert_eq!(world.content("/gy/data/a~1").unwrap(), "second");
    assert_eq!(world.content("/gy/data/a~2").unwrap(), "third");
    assert_eq!(
        world.content("/gy/.record").unwrap(),
        "/data/a\t/gy/data/a\n/data/a\t/gy/data/a~1\n/data/a\t/gy/data/a~2\n"
    );
}

#[test]
fn both_graves_of_one_path_can_be_brought_back() {
    let mut world = World::new();
    world.file("/data/a", "first");
    world.run(&bury(&["/data/a"]), &env_at("/")).unwrap();
    world.file("/data/a", "second");
    world.run(&bury(&["/data/a"]), &env_at("/")).unwrap();
    world.run(&unbury(&["/gy/data/a", "/gy/data/a~1"]), &env_at("/")).unwrap();
    assert_eq!(world.content("/data/a").unwrap(), "first");
    assert_eq!(world.content("/data/a~1").unwrap(), "second");
    assert_eq!(world.content("/gy/.record").unwrap(), "");
}

#[test]
fn broken_link_in_the_grave_counts_as_taken() {
    let mut world = World::new();
    world.put("/gy/data/a", Node::Link(p("/nowhere")));
    world.file("/data/a", "content");
    world.run(&bury(&["/data/a"]), &env_at("/")).unwrap();
    assert_eq!(world.get("/gy/data/a"), Some(&Node::Link(p("/nowhere"))));
    assert_eq!(world.content("/gy/data/a~1").unwrap(), "content");
}

#[test]
fn restore_does_not_clobber_what_stands_at_the_original_place() {
    let mut world = World::new();
    world.file("/data/a", "old");
    world.run(&bury(&["/data/a"]), &env_at("/")).unwrap();
    world.file("/data/a", "new");
    world.run(&unbury(&[]), &env_at("/")).unwrap();
    assert_eq!(world.content("/data/a").unwrap(), "new");
    assert_eq!(world.content("/data/a~1").unwrap(), "old");
    assert!(!world.has("/gy/data/a"));
}

#[test]
fn directory_moves_across_filesystems_with_all_it_holds() {
    let mut world = World::new();
    world.cross_device = true;
    world.file("/src/dir/file.txt", "regular content");
    world.put("/src/dir/link", Node::Link(p("file.txt")));
    world.file("/src/dir/nested/deep.txt", "deep content");
    world.put("/src/dir/nested/pipe", Node::Fifo(0o640));
    world.dir("/src/dir/empty");
    world.dir("/dst");
    assert_eq!(world.relocate("/src/dir", "/dst/dir"), Ok(Moved::Relocated));
    assert_eq!(world.get("/dst/dir"), Some(&Node::Dir));
    assert_eq!(world.content("/dst/dir/file.txt").unwrap(), "regular content");
    assert_eq!(world.get("/dst/dir/link"), Some(&Node::Link(p("file.txt"))));
    assert_eq!(world.get("/dst/dir/nested"), Some(&Node::Dir));
    assert_eq!(world.content("/dst/dir/nested/deep.txt").unwrap(), "deep content");
    assert_eq!(world.get("/dst/dir/nested/pipe"), Some(&Node::Fifo(0o640)));
    assert_eq!(world.get("/dst/dir/empty"), Some(&Node::Dir));
    assert!(world.subtree(b"/src/dir").is_empty());
    assert!(world.has("/src"));
}

#[test]
fn directory_moves_by_rename_where_that_works() {
    let mut world = World::new();
    world.file("/src/dir/file.txt", "content");
    world.dir("/dst");
    assert_eq!(world.relocate("/src/dir", "/dst/dir"), Ok(Moved::Relocated));
    assert_eq!(world.actions, vec![Op::Rename]);
    assert_eq!(world.content("/dst/dir/file.txt").unwrap(), "content");
    assert!(!world.has("/src/dir"));
}

#[test]
fn move_makes_the_parent_of_the_destination() {
    let mut world = World::new();
    world.cross_device = true;
    world.file("/src/a", "content");
    assert_eq!(world.relocate("/src/a", "/far/away/a"), Ok(Moved::Relocated));
    assert_eq!(world.get("/far/away"), Some(&Node::Dir));
    assert_eq!(world.content("/far/away/a").unwrap(), "content");
    assert!(!world.has("/src/a"));
}

#[test]
fn failed_copy_of_a_directory_leaves_no_half_copy_and_the_source_untouched() {
    let mut world = World::new();
    world.cross_device = true;
    world.file("/src/dir/a.txt", "a");
    world.file("/src/dir/sub/b.txt", "b");
    world.file("/src/dir/sub/c.txt", "c");
    world.unreadable.push(p("/src/dir/sub/c.txt"));
    world.dir("/dst");
    let before = world.subtree(b"/src");
    let result = world.relocate("/src/dir", "/dst/dir");
    assert_eq!(
        result,
        Err(Failure {
            kind: ErrorKind::PermissionDenied,
            reason: Reason::CopyFile,
            path: p("/src/dir/sub/c.txt"),
            other: p("/dst/dir/sub/c.txt"),
        })
    );
    assert_eq!(world.subtree(b"/dst"), vec![p("/dst")]);
    assert_eq!(world.subtree(b"/src"), before);
    assert_eq!(world.content("/src/dir/sub/c.txt").unwrap(), "c");
}

#[test]
fn failed_burial_writes_no_entry() {
    let mut world = World::new();
    world.cross_device = true;
    world.file("/data/a", "a");
    world.unreadable.push(p("/data/a"));
    let result = world.run(&bury(&["/data/a"]), &env_at("/"));
    assert_eq!(
        result,
        Err(Failure {
            kind: ErrorKind::PermissionDenied,
            reason: Reason::CopyFile,
            path: p("/data/a"),
            other: p("/gy/data/a"),
        })
    );
    assert_eq!(world.content("/data/a").unwrap(), "a");
    assert!(!world.has("/gy/data/a"));
    assert!(!world.has("/gy/.record"));
}

#[test]
fn big_file_deleted_for_good_is_gone_and_not_recorded() {
    let mut world = World::new();
    world.cross_device = true;
    world.file("/data/big", "pretend this is huge");
    world.sizes.insert(p("/data/big"), BIG_FILE_THRESHOLD + 1);
    world.answers.push_back(true);
    world.run(&bury(&["/data/big"]), &env_at("/")).unwrap();
    assert_eq!(world.asked, vec![(Op::ConfirmBigFile, "/data/big".to_string())]);
    assert!(!world.has("/gy/data/big"));
    assert!(!world.has("/gy/.record"));
    assert!(!world.has("/data/big"));
}

#[test]
fn big_file_that_is_to_be_kept_stays_and_fails_the_burial() {
    let mut world = World::new();
    world.cross_device = true;
    world.file("/data/big", "pretend this is huge");
    world.sizes.insert(p("/data/big"), BIG_FILE_THRESHOLD + 1);
    world.answers.push_back(false);
    let result = world.run(&bury(&["/data/big"]), &env_at("/"));
    assert_eq!(
        result,
        Err(Failure {
            kind: ErrorKind::InvalidInput,
            reason: Reason::CopyFile,
            path: p("/data/big"),
            other: p("/gy/data/big"),
        })
    );
    assert_eq!(world.asked, vec![(Op::ConfirmBigFile, "/data/big".to_string())]);
    assert!(!world.actions.contains(&Op::CopyFile));
    assert!(!world.has("/gy/data/big"));
    assert!(!world.has("/gy/.record"));
    assert_eq!(world.content("/data/big").unwrap(), "pretend this is huge");
}

#[test]
fn big_file_in_a_directory_that_is_to_be_kept_fails_the_move_and_leaves_no_half_copy() {
    let mut world = World::new();
    world.cross_device = true;
    world.file("/data/dir/a", "small");
    world.file("/data/dir/big", "pretend this is huge");
    world.sizes.insert(p("/data/dir/big"), BIG_FILE_THRESHOLD + 1);
    world.answers.push_back(false);
    let before = world.subtree(b"/data");
    let result = world.run(&bury(&["/data/dir"]), &env_at("/"));
    assert_eq!(
        result,
        Err(Failure {
            kind: ErrorKind::InvalidInput,
            reason: Reason::CopyFile,
            path: p("/data/dir/big"),
            other: p("/gy/data/dir/big"),
        })
    );
    assert_eq!(world.subtree(b"/data"), before);
    assert!(world.subtree(b"/gy/data/dir").is_empty());
    assert!(!world.has("/gy/.record"));
}

#[test]
fn file_that_cannot_be_removed_is_not_left_in_the_grave() {
    let mut world = World::new();
    world.cross_device = true;
    world.file("/data/a", "content");
    world.undeletable.push(p("/data/a"));
    let result = world.run(&bury(&["/data/a"]), &env_at("/"));
    assert_eq!(
        result,
        Err(Failure {
            kind: ErrorKind::PermissionDenied,
            reason: Reason::RemoveFile,
            path: p("/data/a"),
            other: p("/gy/data/a"),
        })
    );
    assert_eq!(world.content("/data/a").unwrap(), "content");
    assert!(!world.has("/gy/data/a"));
    assert!(!world.has("/gy/.record"));
}

#[test]
fn directory_that_cannot_be_removed_is_not_left_in_the_grave() {
    let mut world = World::new();
    world.cross_device = true;
    world.file("/data/dir/a", "a");
    world.file("/data/dir/sub/b", "b");
    world.undeletable.push(p("/data/dir"));
    let before = world.subtree(b"/data");
    let result = world.run(&bury(&["/data/dir"]), &env_at("/"));
    assert_eq!(
        result,
        Err(Failure {
            kind: ErrorKind::PermissionDenied,
            reason: Reason::RemoveDir,
            path: p("/data/dir"),
            other: p("/gy/data/dir"),
        })
    );
    assert_eq!(world.subtree(b"/data"), before);
    assert!(world.subtree(b"/gy/data/dir").is_empty());
    assert!(!world.has("/gy/.record"));
}

#[test]
fn big_file_on_the_same_filesystem_is_renamed_without_asking() {
    let mut world = World::new();
    world.dir("/gy/data");
    world.file("/data/big", "pretend this is huge");
    world.sizes.insert(p("/data/big"), BIG_FILE_THRESHOLD + 1);
    world.run(&bury(&["/data/big"]), &env_at("/")).unwrap();
    assert!(world.asked.is_empty());
    assert_eq!(world.content("/gy/data/big").unwrap(), "pretend this is huge");
}

#[test]
fn special_file_that_cannot_be_copied_leaves_a_marker_if_the_user_agrees() {
    let mut world = World::new();
    world.cross_device = true;
    world.put("/run/socket", Node::Socket);
    world.answers.push_back(true);
    world.run(&bury(&["/run/socket"]), &env_at("/")).unwrap();
    assert_eq!(world.asked, vec![(Op::ConfirmSpecialFile, "/run/socket".to_string())]);
    assert_eq!(world.get("/gy/run/socket"), Some(&Node::Marker));
    assert!(!world.has("/run/socket"));
    assert_eq!(world.content("/gy/.record").unwrap(), "/run/socket\t/gy/run/socket\n");
}

#[test]
fn special_file_that_cannot_be_copied_stays_if_the_user_declines() {
    let mut world = World::new();
    world.cross_device = true;
    world.put("/run/socket", Node::Socket);
    world.answers.push_back(false);
    let result = world.run(&bury(&["/run/socket"]), &env_at("/"));
    assert_eq!(
        result,
        Err(Failure {
            kind: ErrorKind::InvalidInput,
            reason: Reason::CopyFile,
            path: p("/run/socket"),
            other: p("/gy/run/socket"),
        })
    );
    assert_eq!(world.get("/run/socket"), Some(&Node::Socket));
    assert!(!world.has("/gy/run/socket"));
    assert!(!world.has("/gy/.record"));
}

#[test]
fn link_is_buried_as_a_link() {
    let mut world = World::new();
    world.cross_device = true;
    world.file("/data/real", "content");
    world.put("/data/link", Node::Link(p("real")));
    world.run(&bury(&["/data/link"]), &env_at("/")).unwrap();
    assert_eq!(world.get("/gy/data/link"), Some(&Node::Link(p("real"))));
    assert_eq!(world.content("/data/real").unwrap(), "content");
    assert!(!world.has("/data/link"));
    assert!(!world.actions.contains(&Op::Canonicalize));
}

#[test]
fn target_in_the_graveyard_is_unlinked_for_good_if_the_user_agrees() {
    let mut world = World::new();
    world.file("/data/a", "content");
    world.run(&bury(&["/data/a"]), &env_at("/")).unwrap();
    let record = world.content("/gy/.record").unwrap();
    world.answers.push_back(true);
    world.run(&bury(&["/gy/data/a"]), &env_at("/")).unwrap();
    assert_eq!(world.asked, vec![(Op::ConfirmUnlink, "/gy/data/a".to_string())]);
    assert!(!world.has("/gy/data/a"));
    assert!(!world.has("/gy/gy"));
    assert_eq!(world.content("/gy/.record").unwrap(), record);
}

#[test]
fn directory_in_the_graveyard_is_unlinked_with_all_it_holds() {
    let mut world = World::new();
    world.file("/data/dir/a", "a");
    world.file("/data/dir/b", "b");
    world.run(&bury(&["/data/dir"]), &env_at("/")).unwrap();
    world.answers.push_back(true);
    world.run(&bury(&["/gy/data/dir"]), &env_at("/")).unwrap();
    assert!(world.subtree(b"/gy/data/dir").is_empty());
    assert!(world.has("/gy/data"));
}

#[test]
fn target_in_the_graveyard_is_skipped_if_the_user_declines() {
    let mut world = World::new();
    world.file("/data/a", "content");
    world.file("/data/b", "other");
    world.run(&bury(&["/data/a"]), &env_at("/")).unwrap();
    world.answers.push_back(false);
    world.run(&bury(&["/gy/data/a", "/data/b"]), &env_at("/")).unwrap();
    assert_eq!(world.content("/gy/data/a").unwrap(), "content");
    assert_eq!(world.told, vec![(Op::TellSkipping, "/gy/data/a".to_string(), String::new(), 0)]);
    assert_eq!(world.content("/gy/data/b").unwrap(), "other");
    assert_eq!(
        world.content("/gy/.record").unwrap(),
        "/data/a\t/gy/data/a\n/data/b\t/gy/data/b\n"
    );
}

#[test]
fn seance_names_the_graves_of_the_current_directory_only() {
    let mut world = World::new();
    world.file("/home/a/x", "1");
    world.file("/home/b/y", "2");
    world.file("/home/a/z", "3");
    world.run(&bury(&["/home/a/x", "/home/b/y", "/home/a/z"]), &env_at("/")).unwrap();
    let cli = Args { seance: true, graveyard: Some(p("/gy")), ..Args::default() };
    world.run(&cli, &env_at("/home/a")).unwrap();
    assert_eq!(
        world.told,
        vec![
            (Op::TellGrave, "/gy/home/a/x".to_string(), String::new(), 0),
            (Op::TellGrave, "/gy/home/a/z".to_string(), String::new(), 0),
        ]
    );
    world.told.clear();
    world.run(&cli, &env_at("/home/b")).unwrap();
    assert_eq!(world.told, vec![(Op::TellGrave, "/gy/home/b/y".to_string(), String::new(), 0)]);
    world.told.clear();
    world.run(&cli, &env_at("/home/c")).unwrap();
    assert!(world.told.is_empty());
}

#[test]
fn seance_without_a_record_names_nothing() {
    let mut world = World::new();
    let cli = Args { seance: true, graveyard: Some(p("/gy")), ..Args::default() };
    world.run(&cli, &env_at("/home")).unwrap();
    assert!(world.told.is_empty());
    assert!(world.has("/gy"));
}

#[test]
fn unbury_with_seance_brings_back_what_was_buried_from_here() {
    let mut world = World::new();
    world.file("/home/a/x", "1");
    world.file("/home/b/y", "2");
    world.file("/home/a/z", "3");
    world.run(&bury(&["/home/a/x", "/home/b/y", "/home/a/z"]), &env_at("/")).unwrap();
    let cli = Args { seance: true, ..unbury(&[]) };
    world.run(&cli, &env_at("/home/a")).unwrap();
    assert_eq!(world.content("/home/a/x").unwrap(), "1");
    assert_eq!(world.content("/home/a/z").unwrap(), "3");
    assert!(!world.has("/home/b/y"));
    assert_eq!(world.content("/gy/.record").unwrap(), "/home/b/y\t/gy/home/b/y\n");
}

#[test]
fn unbury_of_named_graves_passes_over_stale_names() {
    let mut world = World::new();
    world.file("/home/a/x", "1");
    world.file("/home/b/y", "2");
    world.run(&bury(&["/home/a/x", "/home/b/y"]), &env_at("/")).unwrap();
    world.run(&unbury(&["/gy/stale", "/gy/home/b/y"]), &env_at("/")).unwrap();
    assert_eq!(world.content("/home/b/y").unwrap(), "2");
    assert!(!world.has("/home/a/x"));
    assert_eq!(world.content("/gy/.record").unwrap(), "/home/a/x\t/gy/home/a/x\n");
}

#[test]
fn unbury_without_names_brings_back_the_last_burial_only() {
    let mut world = World::new();
    world.file("/home/a/x", "1");
    world.file("/home/b/y", "2");
    world.run(&bury(&["/home/a/x", "/home/b/y"]), &env_at("/")).unwrap();
    world.run(&unbury(&[]), &env_at("/")).unwrap();
    assert_eq!(world.content("/home/b/y").unwrap(), "2");
    assert!(!world.has("/home/a/x"));
    world.run(&unbury(&[]), &env_at("/")).unwrap();
    assert_eq!(world.content("/home/a/x").unwrap(), "1");
    assert_eq!(world.content("/gy/.record").unwrap(), "");
}

#[test]
fn unbury_in_an_empty_graveyard_does_nothing() {
    let mut world = World::new();
    world.run(&unbury(&[]), &env_at("/")).unwrap();
    assert!(!world.has("/gy/.record"));
    assert!(world.told.is_empty());
}

#[test]
fn unbury_that_fails_keeps_the_entry_of_the_grave_that_stays() {
    let mut world = World::new();
    world.file("/home/a/x", "1");
    world.file("/home/b/y", "2");
    world.file("/home/c/z", "3");
    world.run(&bury(&["/home/a/x", "/home/b/y", "/home/c/z"]), &env_at("/")).unwrap();
    world.cross_device = true;
    world.unreadable.push(p("/gy/home/b/y"));
    let result = world.run(&unbury(&["/gy/home/a/x", "/gy/home/b/y", "/gy/home/c/z"]), &env_at("/"));
    assert_eq!(
        result,
        Err(Failure {
            kind: ErrorKind::PermissionDenied,
            reason: Reason::CopyFile,
            path: p("/gy/home/b/y"),
            other: p("/home/b/y"),
        })
    );
    assert_eq!(world.content("/home/a/x").unwrap(), "1");
    assert!(!world.has("/home/b/y"));
    assert!(!world.has("/home/c/z"));
    assert_eq!(world.content("/gy/home/b/y").unwrap(), "2");
    assert_eq!(world.content("/gy/home/c/z").unwrap(), "3");
    assert_eq!(
        world.content("/gy/.record").unwrap(),
        "/home/b/y\t/gy/home/b/y\n/home/c/z\t/gy/home/c/z\n"
    );
}

#[test]
fn target_that_does_not_exist_stops_the_burials() {
    let mut world = World::new();
    world.file("/data/a", "a");
    world.file("/data/c", "c");
    let result = world.run(&bury(&["/data/a", "/data/missing", "/data/c"]), &env_at("/"));
    assert_eq!(
        result,
        Err(Failure {
            kind: ErrorKind::NotFound,
            reason: Reason::NoSuchTarget,
            path: p("/data/missing"),
            other: Vec::new(),
        })
    );
    assert_eq!(world.content("/gy/data/a").unwrap(), "a");
    assert_eq!(world.content("/data/c").unwrap(), "c");
    assert_eq!(world.content("/gy/.record").unwrap(), "/data/a\t/gy/data/a\n");
}

#[test]
fn target_with_a_tab_in_its_name_is_refused_and_stays() {
    let mut world = World::new();
    world.file("/data/a\tb", "content");
    let result = world.run(&bury(&["/data/a\tb"]), &env_at("/"));
    assert_eq!(
        result,
        Err(Failure {
            kind: ErrorKind::InvalidInput,
            reason: Reason::Unrecordable,
            path: p("/data/a\tb"),
            other: Vec::new(),
        })
    );
    assert_eq!(world.content("/data/a\tb").unwrap(), "content");
    assert!(!world.actions.contains(&Op::Rename));
}

#[test]
fn graveyard_with_a_line_end_in_its_name_is_refused() {
    let mut world = World::new();
    world.file("/data/a", "content");
    let cli = Args { targets: vec![p("/data/a")], graveyard: Some(p("/g\ny")), ..Args::default() };
    let result = world.run(&cli, &env_at("/"));
    assert_eq!(
        result,
        Err(Failure {
            kind: ErrorKind::InvalidInput,
            reason: Reason::Unrecordable,
            path: p("/g\ny/data/a"),
            other: Vec::new(),
        })
    );
    assert_eq!(world.content("/data/a").unwrap(), "content");
}

#[test]
fn no_targets_prints_the_usage() {
    let mut world = World::new();
    let cli = Args { graveyard: Some(p("/gy")), ..Args::default() };
    world.run(&cli, &env_at("/")).unwrap();
    assert!(world.help_printed);
    assert_eq!(world.actions, vec![Op::Exists, Op::CreateDirAll, Op::PrintHelp]);
}

#[test]
fn options_that_exclude_each_other_end_the_invocation_at_once() {
    let mut world = World::new();
    let cli = Args { decompose: true, seance: true, ..Args::default() };
    assert_eq!(
        world.run(&cli, &env_at("/")),
        Err(Failure {
            kind: ErrorKind::InvalidInput,
            reason: Reason::DecomposeNotAlone,
            path: Vec::new(),
            other: Vec::new(),
        })
    );
    let cli = Args { completions: Some("bash".to_string()), inspect: true, ..Args::default() };
    assert_eq!(
        world.run(&cli, &env_at("/")),
        Err(Failure {
            kind: ErrorKind::InvalidInput,
            reason: Reason::CompletionsNotAlone,
            path: Vec::new(),
            other: Vec::new(),
        })
    );
    assert!(world.actions.is_empty());
}

#[test]
fn burial_without_a_current_directory_fails() {
    let mut world = World::new();
    world.file("/data/a", "content");
    let env = Environment { graveyard: None, data_home: None, user: None, cwd: None };
    assert_eq!(
        world.run(&bury(&["/data/a"]), &env),
        Err(Failure {
            kind: ErrorKind::Io,
            reason: Reason::NoWorkingDirectory,
            path: Vec::new(),
            other: Vec::new(),
        })
    );
    assert_eq!(world.content("/data/a").unwrap(), "content");
}

#[test]
fn inspected_file_is_shown_and_buried_if_the_user_agrees() {
    let mut world = World::new();
    world.file("/data/a.txt", "1\n2\n3\n4\n5\n6\n7\n8\n");
    world.answers.push_back(true);
    let cli = Args { inspect: true, ..bury(&["/data/a.txt"]) };
    world.run(&cli, &env_at("/")).unwrap();
    let mut shown = vec![(Op::TellFile, "/data/a.txt".to_string(), String::new(), 16)];
    for line in ["1", "2", "3", "4", "5", "6"] {
        shown.push((Op::TellLine, line.to_string(), String::new(), 0));
    }
    assert_eq!(world.told, shown);
    assert_eq!(world.asked, vec![(Op::ConfirmBury, "/data/a.txt".to_string())]);
    assert!(world.has("/gy/data/a.txt"));
    assert!(!world.has("/data/a.txt"));
}

#[test]
fn inspected_file_stays_if_the_user_declines() {
    let mut world = World::new();
    world.file("/data/a.txt", "one line\n");
    world.answers.push_back(false);
    let cli = Args { inspect: true, ..bury(&["/data/a.txt"]) };
    world.run(&cli, &env_at("/")).unwrap();
    assert_eq!(world.content("/data/a.txt").unwrap(), "one line\n");
    assert!(!world.has("/gy/data/a.txt"));
    assert!(!world.has("/gy/.record"));
}

#[test]
fn inspected_directory_shows_its_size_and_its_first_entries() {
    let mut world = World::new();
    for name in ["a", "b", "c", "d", "e", "f", "g", "h"] {
        world.file(&format!("/data/dir/{}", name), "12345");
    }
    world.file("/data/dir/a_sub/inner", "1234567890");
    world.answers.push_back(true);
    let cli = Args { inspect: true, ..bury(&["/data/dir"]) };
    world.run(&cli, &env_at("/")).unwrap();
    let total = 4096 + 8 * 5 + 4096 + 10;
    let mut shown = vec![(Op::TellDirectory, "/data/dir".to_string(), String::new(), total)];
    for name in ["a", "a_sub", "b", "c", "d", "e"] {
        shown.push((Op::TellChild, format!("/data/dir/{}", name), String::new(), 0));
    }
    assert_eq!(world.told, shown);
    assert!(world.has("/gy/data/dir/a_sub/inner"));
    assert!(!world.has("/data/dir"));
}

#[test]
fn inspected_link_that_cannot_be_read_is_said_to_be_unreadable() {
    let mut world = World::new();
    world.put("/data/link", Node::Link(p("/nowhere")));
    world.answers.push_back(true);
    let cli = Args { inspect: true, ..bury(&["/data/link"]) };
    world.run(&cli, &env_at("/")).unwrap();
    assert_eq!(
        world.told,
        vec![
            (Op::TellFile, "/data/link".to_string(), String::new(), 8),
            (Op::TellUnreadable, "/data/link".to_string(), String::new(), 0),
        ]
    );
    assert_eq!(world.get("/gy/data/link"), Some(&Node::Link(p("/nowhere"))));
}

#[test]
fn graves_of_like_named_paths_do_not_collide() {
    let mut world = World::new();
    world.file("/data/a", "first a");
    world.run(&bury(&["/data/a"]), &env_at("/")).unwrap();
    world.file("/data/a~1", "named like a grave");
    world.run(&bury(&["/data/a~1"]), &env_at("/")).unwrap();
    world.file("/data/a", "second a");
    world.run(&bury(&["/data/a"]), &env_at("/")).unwrap();
    assert_eq!(world.content("/gy/data/a").unwrap(), "first a");
    assert_eq!(world.content("/gy/data/a~1").unwrap(), "named like a grave");
    assert_eq!(world.content("/gy/data/a~2").unwrap(), "second a");
    assert_eq!(
        world.content("/gy/.record").unwrap(),
        "/data/a\t/gy/data/a\n/data/a~1\t/gy/data/a~1\n/data/a\t/gy/data/a~2\n"
    );
}

#[test]
fn file_named_like_the_record_rests_beside_it() {
    let mut world = World::new();
    world.file("/data/a", "a");
    world.run(&bury(&["/data/a"]), &env_at("/")).unwrap();
    world.file("/.record", "not the record");
    world.run(&bury(&["/.record"]), &env_at("/")).unwrap();
    assert_eq!(world.content("/gy/.record~1").unwrap(), "not the record");
    assert_eq!(
        world.content("/gy/.record").unwrap(),
        "/data/a\t/gy/data/a\n/.record\t/gy/.record~1\n"
    );
}

#[test]
fn seance_keeps_like_named_directories_apart() {
    let mut world = World::new();
    world.file("/home/a/x", "1");
    world.file("/home/ab/y", "2");
    world.run(&bury(&["/home/a/x", "/home/ab/y"]), &env_at("/")).unwrap();
    let cli = Args { seance: true, graveyard: Some(p("/gy")), ..Args::default() };
    world.run(&cli, &env_at("/home/a")).unwrap();
    assert_eq!(world.told, vec![(Op::TellGrave, "/gy/home/a/x".to_string(), String::new(), 0)]);
}

#[test]
fn directory_is_buried_and_brought_back_with_all_it_holds() {
    let mut world = World::new();
    world.cross_device = true;
    world.file("/work/project/src/main.rs", "fn main() {}");
    world.file("/work/project/notes.txt", "notes");
    world.put("/work/project/latest", Node::Link(p("notes.txt")));
    world.dir("/work/project/empty");
    let before = world.subtree(b"/work/project");
    world.run(&bury(&["project"]), &env_at("/work")).unwrap();
    assert!(world.subtree(b"/work/project").is_empty());
    assert_eq!(world.content("/gy/work/project/src/main.rs").unwrap(), "fn main() {}");
    assert_eq!(world.get("/gy/work/project/latest"), Some(&Node::Link(p("notes.txt"))));
    assert_eq!(world.content("/gy/.record").unwrap(), "/work/project\t/gy/work/project\n");
    world.run(&unbury(&[]), &env_at("/work")).unwrap();
    assert_eq!(world.subtree(b"/work/project"), before);
    assert_eq!(world.content("/work/project/src/main.rs").unwrap(), "fn main() {}");
    assert_eq!(world.content("/work/project/notes.txt").unwrap(), "notes");
    assert_eq!(world.get("/work/project/latest"), Some(&Node::Link(p("notes.txt"))));
    assert_eq!(world.get("/work/project/empty"), Some(&Node::Dir));
    assert!(world.subtree(b"/gy/work/project").is_empty());
    assert_eq!(world.content("/gy/.record").unwrap(), "");
}

#[test]
fn several_targets_are_buried_in_their_order() {
    let mut world = World::new();
    world.file("/data/c", "c");
    world.file("/data/a", "a");
    world.file("/data/b", "b");
    world.run(&bury(&["/data/c", "/data/a", "/data/b"]), &env_at("/")).unwrap();
    assert_eq!(
        world.content("/gy/.record").unwrap(),
        "/data/c\t/gy/data/c\n/data/a\t/gy/data/a\n/data/b\t/gy/data/b\n"
    );
}
