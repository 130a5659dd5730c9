use remote_agent::backup::BackupOutcome;
use remote_agent::backup::EntryOutcome;
use remote_agent::backup::RestoreOutcome;
use remote_agent::command::Command;
use remote_agent::executor::copy_response;
use remote_agent::executor::not_run_response;
use remote_agent::executor::rollback_response;
use remote_agent::executor::run_response;
use remote_agent::executor::Action;
use remote_agent::executor::Event;
use remote_agent::executor::Executor;
use std::collections::BTreeMap;

/// A directory held in memory, which does what it is asked.
struct Shelf {
    files: BTreeMap<String, Vec<u8>>,
    asked: Vec<Action>,
}

impl Shelf {
    fn new() -> Shelf {
        Shelf { files: BTreeMap::new(), asked: Vec::new() }
    }

    fn perform(&mut self, action: &Action) -> Event {
        self.asked.push(action.clone());
        match action {
            Action::Probe { path } => Event::Probed { exists: self.files.contains_key(path) },
            Action::Rename { from, to } => match self.files.remove(from) {
                Some(content) => {
                    self.files.insert(to.clone(), content);
                    Event::Renamed { failure: None }
                }
                None => Event::Renamed { failure: Some("No such file or directory".to_string()) },
            },
            Action::Write { path, data } => {
                self.files.insert(path.clone(), data.clone());
                Event::Written { failure: None }
            }
            Action::List { .. } => {
                Event::Listed { entries: Some(self.files.keys().cloned().collect()) }
            }
            other => panic!("the shelf was asked for {:?}", other),
        }
    }

    fn carry_out(&mut self, command: Command) -> String {
        let (mut executor, mut action) = Executor::begin(command);
        loop {
            if let Action::Reply { text } = action {
                assert!(executor.is_done());
                return text;
            }
            let event = self.perform(&action);
            let next = executor.step(event);
            executor = next.0;
            action = next.1;
        }
    }

    fn content(&self, path: &str) -> Option<&[u8]> {
        self.files.get(path).map(|data| data.as_slice())
    }
}

fn copy_of(path: &str, data: &[u8]) -> Command {
    Command::Copy { file_path: path.to_string(), data: data.to_vec() }
}

fn rollback_of(dir: &str) -> Command {
    Command::Rollback { file_path: dir.to_string() }
}

#[test]
fn first_copy_reports_no_previous_version() {
    let mut shelf = Shelf::new();
    let reply = shelf.carry_out(copy_of("a.txt", b"hello"));
    assert_eq!(
        reply,
        "This is the first copy, no previous version found for a.txt.prev. \
         No rollback will be possible. File of 5 bytes received and stored as a.txt"
    );
    assert_eq!(shelf.content("a.txt"), Some(&b"hello"[..]));
    assert_eq!(shelf.content("a.txt.prev"), None);
    assert_eq!(
        shelf.asked,
        vec![
            Action::Probe { path: "a.txt".to_string() },
            Action::Write { path: "a.txt".to_string(), data: b"hello".to_vec() },
        ]
    );
}

#[test]
fn second_copy_keeps_the_first_as_backup() {
    let mut shelf = Shelf::new();
    shelf.carry_out(copy_of("a.txt", b"hello"));
    shelf.asked.clear();
    let reply = shelf.carry_out(copy_of("a.txt", b"world"));
    assert_eq!(
        reply,
        "Previous version stored at a.txt.prev File of 5 bytes received and stored as a.txt"
    );
    assert_eq!(shelf.content("a.txt.prev"), Some(&b"hello"[..]));
    assert_eq!(shelf.content("a.txt"), Some(&b"world"[..]));
    assert_eq!(
        shelf.asked,
        vec![
            Action::Probe { path: "a.txt".to_string() },
            Action::Rename { from: "a.txt".to_string(), to: "a.txt.prev".to_string() },
            Action::Write { path: "a.txt".to_string(), data: b"world".to_vec() },
        ]
    );
}

#[test]
fn rollback_restores_the_first_copy() {
    let mut shelf = Shelf::new();
    shelf.carry_out(copy_of("a.txt", b"hello"));
    shelf.carry_out(copy_of("a.txt", b"world"));
    let reply = shelf.carry_out(rollback_of("."));
    assert_eq!(reply, "Restored a.txt\n");
    assert_eq!(shelf.content("a.txt"), Some(&b"hello"[..]));
    assert_eq!(shelf.content("a.txt.prev"), None);
}

#[test]
fn third_copy_replaces_the_backup() {
    let mut shelf = Shelf::new();
    shelf.carry_out(copy_of("p", b"one"));
    shelf.carry_out(copy_of("p", b"two"));
    shelf.carry_out(copy_of("p", b"three"));
    assert_eq!(shelf.content("p"), Some(&b"three"[..]));
    assert_eq!(shelf.content("p.prev"), Some(&b"two"[..]));
    assert_eq!(shelf.files.len(), 2);
}

#[test]
fn rollback_without_backups_changes_nothing() {
    let mut shelf = Shelf::new();
    shelf.carry_out(copy_of("a.txt", b"hello"));
    shelf.carry_out(copy_of("b.prev.txt", b"other"));
    let before = shelf.files.clone();
    shelf.asked.clear();
    let reply = shelf.carry_out(rollback_of("."));
    assert_eq!(reply, "Could not find any previous version for rollback");
    assert_eq!(shelf.files, before);
    assert_eq!(shelf.asked, vec![Action::List { dir: ".".to_string() }]);
}

#[test]
fn rollback_of_an_empty_directory_finds_nothing() {
    let mut shelf = Shelf::new();
    assert_eq!(
        shelf.carry_out(rollback_of("empty")),
        "Could not find any previous version for rollback"
    );
    assert!(shelf.files.is_empty());
}

#[test]
fn rollback_sweeps_every_backup_in_listing_order() {
    let mut shelf = Shelf::new();
    for name in ["a", "b", "c"] {
        shelf.carry_out(copy_of(name, b"old"));
        shelf.carry_out(copy_of(name, b"new"));
    }
    shelf.carry_out(copy_of("d", b"only"));
    let reply = shelf.carry_out(rollback_of("."));
    assert_eq!(reply, "Restored a\nRestored b\nRestored c\n");
    for name in ["a", "b", "c"] {
        assert_eq!(shelf.content(name), Some(&b"old"[..]));
    }
    assert_eq!(shelf.content("d"), Some(&b"only"[..]));
    assert_eq!(shelf.files.len(), 4);
}

#[test]
fn rollback_strips_the_suffix_once() {
    let (executor, action) = Executor::begin(rollback_of("."));
    assert_eq!(action, Action::List { dir: ".".to_string() });
    let (_, action) =
        executor.step(Event::Listed { entries: Some(vec!["./a.prev.prev".to_string()]) });
    assert_eq!(
        action,
        Action::Rename { from: "./a.prev.prev".to_string(), to: "./a.prev".to_string() }
    );
}

#[test]
fn rollback_goes_on_after_a_failure() {
    let (executor, action) = Executor::begin(rollback_of("d"));
    assert_eq!(action, Action::List { dir: "d".to_string() });
    let listing = vec![
        "d/x.prev".to_string(),
        "d/plain".to_string(),
        "d/y.prev".to_string(),
        "d/z.prev".to_string(),
    ];
    let (executor, action) = executor.step(Event::Listed { entries: Some(listing) });
    assert_eq!(action, Action::Rename { from: "d/x.prev".to_string(), to: "d/x".to_string() });
    let (executor, action) =
        executor.step(Event::Renamed { failure: Some("Permission denied".to_string()) });
    assert_eq!(action, Action::Rename { from: "d/y.prev".to_string(), to: "d/y".to_string() });
    let (executor, action) = executor.step(Event::Renamed { failure: None });
    assert_eq!(action, Action::Rename { from: "d/z.prev".to_string(), to: "d/z".to_string() });
    assert!(!executor.is_done());
    let (executor, action) =
        executor.step(Event::Renamed { failure: Some("Is a directory".to_string()) });
    assert!(executor.is_done());
    assert_eq!(
        action,
        Action::Reply {
            text: "Could not restore d/x: Permission denied\nRestored d/y\n\
                   Could not restore d/z: Is a directory\n"
                .to_string()
        }
    );
}

#[test]
fn rollback_of_a_missing_directory_says_so() {
    let (executor, _) = Executor::begin(rollback_of("nowhere"));
    let (executor, action) = executor.step(Event::Listed { entries: None });
    assert!(executor.is_done());
    assert_eq!(action, Action::Reply { text: "Folder does not exists.".to_string() });
}

#[test]
fn copy_writes_even_if_the_backup_failed() {
    let (executor, action) = Executor::begin(copy_of("a.txt", b"data"));
    assert_eq!(action, Action::Probe { path: "a.txt".to_string() });
    let (executor, action) = executor.step(Event::Probed { exists: true });
    assert_eq!(
        action,
        Action::Rename { from: "a.txt".to_string(), to: "a.txt.prev".to_string() }
    );
    let (executor, action) =
        executor.step(Event::Renamed { failure: Some("Permission denied".to_string()) });
    assert_eq!(action, Action::Write { path: "a.txt".to_string(), data: b"data".to_vec() });
    let (_, action) = executor.step(Event::Written { failure: None });
    assert_eq!(
        action,
        Action::Reply {
            text: "Could not stored previous version at a.txt.prev \
                   File of 4 bytes received and stored as a.txt"
                .to_string()
        }
    );
}

#[test]
fn copy_reports_a_failed_write() {
    let (executor, _) = Executor::begin(copy_of("d/a.txt", &[0u8; 1234]));
    let (executor, action) = executor.step(Event::Probed { exists: false });
    assert_eq!(action, Action::Write { path: "d/a.txt".to_string(), data: vec![0u8; 1234] });
    let (executor, action) =
        executor.step(Event::Written { failure: Some("No such file or directory".to_string()) });
    assert!(executor.is_done());
    assert_eq!(
        action,
        Action::Reply {
            text: "This is the first copy, no previous version found for d/a.txt.prev. \
                   No rollback will be possible. \
                   File of 1234 bytes received but could not be stored as d/a.txt"
                .to_string()
        }
    );
}

#[test]
fn run_reports_output_and_exit_code() {
    let (executor, action) = Executor::begin(Command::Run { command: "exit 3".to_string() });
    assert_eq!(action, Action::Shell { command: "exit 3".to_string() });
    let (executor, action) =
        executor.step(Event::Ran { stdout: vec![], stderr: vec![], code: Some(3) });
    assert!(executor.is_done());
    assert_eq!(
        action,
        Action::Reply {
            text: "Command: exit 3 (executed)\nStandard output:\n\nStandard error:\n\nExit code:3\n"
                .to_string()
        }
    );
}

#[test]
fn run_reports_what_was_printed() {
    let (executor, _) = Executor::begin(Command::Run { command: "ls missing; echo hi".to_string() });
    let (_, action) = executor.step(Event::Ran {
        stdout: b"hi\n".to_vec(),
        stderr: b"ls: missing: No such file or directory\n".to_vec(),
        code: Some(0),
    });
    assert_eq!(
        action,
        Action::Reply {
            text: "Command: ls missing; echo hi (executed)\nStandard output:\nhi\n\n\
                   Standard error:\nls: missing: No such file or directory\n\nExit code:0\n"
                .to_string()
        }
    );
}

#[test]
fn run_decodes_output_that_is_not_utf8() {
    let (executor, _) = Executor::begin(Command::Run { command: "cat blob".to_string() });
    let (_, action) = executor.step(Event::Ran {
        stdout: vec![b'a', 0xff, b'b'],
        stderr: "\u{e9}".as_bytes().to_vec(),
        code: Some(1),
    });
    assert_eq!(
        action,
        Action::Reply {
            text: "Command: cat blob (executed)\nStandard output:\na\u{fffd}b\n\
                   Standard error:\n\u{e9}\nExit code:1\n"
                .to_string()
        }
    );
}

#[test]
fn run_reports_an_end_by_signal() {
    let (executor, _) = Executor::begin(Command::Run { command: "kill -9 $$".to_string() });
    let (_, action) = executor.step(Event::Ran { stdout: vec![], stderr: vec![], code: None });
    assert_eq!(
        action,
        Action::Reply {
            text: "Command: kill -9 $$ (executed)\nStandard output:\n\nStandard error:\n\n\
                   Exit code:none (terminated by a signal)\n"
                .to_string()
        }
    );
}

#[test]
fn run_reports_a_negative_exit_code() {
    assert_eq!(
        run_response("x", "", "", Some(-1)),
        "Command: x (executed)\nStandard output:\n\nStandard error:\n\nExit code:-1\n"
    );
    assert_eq!(
        run_response("x", "o", "e", Some(i32::MIN)),
        "Command: x (executed)\nStandard output:\no\nStandard error:\ne\nExit code:-2147483648\n"
    );
}

#[test]
fn run_reports_a_command_that_could_not_start() {
    let (executor, _) = Executor::begin(Command::Run { command: "ls".to_string() });
    let (executor, action) = executor.step(Event::NotRun { reason: "no shell".to_string() });
    assert!(executor.is_done());
    assert_eq!(
        action,
        Action::Reply { text: "Command: ls (not executed)\nReason: no shell\n".to_string() }
    );
    assert_eq!(not_run_response("a b", "why"), "Command: a b (not executed)\nReason: why\n");
}

#[test]
fn an_unexpected_report_ends_the_exchange() {
    let (executor, _) = Executor::begin(copy_of("a", b"x"));
    let (executor, action) = executor.step(Event::Written { failure: None });
    assert_eq!(action, Action::Close);
    assert!(executor.is_done());
    let (executor, action) = executor.step(Event::Probed { exists: true });
    assert_eq!(action, Action::Close);
    assert!(executor.is_done());

    let (executor, _) = Executor::begin(rollback_of("."));
    let (_, action) = executor.step(Event::Renamed { failure: None });
    assert_eq!(action, Action::Close);

    let (executor, _) = Executor::begin(Command::Run { command: "ls".to_string() });
    let (_, action) = executor.step(Event::Listed { entries: None });
    assert_eq!(action, Action::Close);
}

#[test]
fn copy_response_words() {
    assert_eq!(
        copy_response(&BackupOutcome::Created("b".to_string()), "a", 0, true),
        "Previous version stored at b File of 0 bytes received and stored as a"
    );
    assert_eq!(
        copy_response(&BackupOutcome::Failed("why".to_string()), "a", 10, false),
        "Could not stored previous version at a.prev \
         File of 10 bytes received but could not be stored as a"
    );
    assert_eq!(
        copy_response(&BackupOutcome::NoPriorVersion, "a", 18_446_744_073_709_551_615, true),
        "This is the first copy, no previous version found for a.prev. \
         No rollback will be possible. \
         File of 18446744073709551615 bytes received and stored as a"
    );
}

#[test]
fn rollback_response_words() {
    assert_eq!(
        rollback_response(&RestoreOutcome::NothingToRestore),
        "Could not find any previous version for rollback"
    );
    assert_eq!(rollback_response(&RestoreOutcome::DirectoryError), "Folder does not exists.");
    assert_eq!(rollback_response(&RestoreOutcome::Swept(vec![])), "");
    assert_eq!(
        rollback_response(&RestoreOutcome::Swept(vec![
            EntryOutcome::Restored("a".to_string()),
            EntryOutcome::Failed("b".to_string(), "busy".to_string()),
        ])),
        "Restored a\nCould not restore b: busy\n"
    );
}

#[test]
fn a_path_that_names_a_backup_is_itself_moved() {
    // a rollback takes the file at such a path for a backup: the law on
    // rollback after two copies speaks of other paths only
    let mut shelf = Shelf::new();
    shelf.carry_out(copy_of("x.prev", b"one"));
    shelf.carry_out(copy_of("x.prev", b"two"));
    let reply = shelf.carry_out(rollback_of("."));
    assert_eq!(reply, "Restored x\nRestored x.prev\n");
    assert_eq!(shelf.content("x"), Some(&b"two"[..]));
    assert_eq!(shelf.content("x.prev"), Some(&b"one"[..]));
    assert_eq!(shelf.content("x.prev.prev"), None);
}
