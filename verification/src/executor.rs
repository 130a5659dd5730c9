//! Carrying out a command, one request to the host at a time.
//!
//! The executor never touches a file or a process. It says what it needs
//! done next, an [`Action`]; the host does it and reports an [`Event`]; the
//! executor answers with the next action, until that action is the reply
//! for the client. Between two commands it remembers nothing.
//!
//! * `Copy`: probe the path; if a file is there, move it to its backup;
//!   write the data whatever became of the move; reply with both outcomes.
//! * `Run`: run the command line; reply with what it printed and how it ended.
//! * `Rollback`: list the directory; move each backup back, in the order
//!   listed, going on after a failure; reply with one line for each backup.

use crate::backup::backup_of;
use crate::backup::backup_outcome;
use crate::backup::backup_path;
use crate::backup::entry_outcome;
use crate::backup::first_backup;
use crate::backup::first_backup_is_first;
use crate::backup::is_backup_name;
use crate::backup::original_of;
use crate::backup::restored_path;
use crate::backup::outcomes_of;
use crate::backup::restore_outcome;
use crate::backup::BackupOutcome;
use crate::backup::BackupOutcomeView;
use crate::backup::EntryOutcome;
use crate::backup::EntryOutcomeView;
use crate::backup::RestoreOutcome;
use crate::backup::RestoreOutcomeView;
use crate::command::Command;
use crate::command::CommandView;
use crate::text::decimal;
use crate::text::decimal_text;
use crate::text::decode_lossy;
use crate::text::lossy_text;
use crate::text::signed_decimal;
use crate::text::signed_decimal_text;
use vstd::prelude::*;
use vstd::string::StringExecFns;

verus! {

/// What the executor needs done next.
#[derive(Clone, Debug, PartialEq, Eq)]
pub enum Action {
    /// Find out whether a file exists at `path`.
    Probe { path: String },
    /// Move `from` to `to`, replacing what is at `to`.
    Rename { from: String, to: String },
    /// Make `data` the whole content of the file at `path`.
    Write { path: String, data: Vec<u8> },
    /// List the paths of the entries directly under `dir`.
    List { dir: String },
    /// Run `command` in the shell and capture what it prints.
    Shell { command: String },
    /// Send `text` to the client: the command is done.
    Reply { text: String },
    /// Hang up without an answer: the host reported what was not asked for.
    Close,
}

/// An `Action` as a mathematical value.
pub enum ActionView {
    Probe { path: Seq<char> },
    Rename { from: Seq<char>, to: Seq<char> },
    Write { path: Seq<char>, data: Seq<u8> },
    List { dir: Seq<char> },
    Shell { command: Seq<char> },
    Reply { text: Seq<char> },
    Close,
}

impl View for Action {
    type V = ActionView;

    open spec fn view(&self) -> ActionView {
        match self {
            Action::Probe { path } => ActionView::Probe { path: path@ },
            Action::Rename { from, to } => ActionView::Rename { from: from@, to: to@ },
            Action::Write { path, data } => ActionView::Write { path: path@, data: data@ },
            Action::List { dir } => ActionView::List { dir: dir@ },
            Action::Shell { command } => ActionView::Shell { command: command@ },
            Action::Reply { text } => ActionView::Reply { text: text@ },
            Action::Close => ActionView::Close,
        }
    }
}

/// What the host reports of the action it was asked for.
#[derive(Clone, Debug, PartialEq, Eq)]
pub enum Event {
    /// Of `Probe`: whether a file is there.
    Probed { exists: bool },
    /// Of `Rename`: `None` if the move was made, else the reason why not.
    Renamed { failure: Option<String> },
    /// Of `Write`: `None` if the file was written, else the reason why not.
    Written { failure: Option<String> },
    /// Of `List`: the paths found, or `None` if the directory could not be listed.
    Listed { entries: Option<Vec<String>> },
    /// Of `Shell`: what the command printed, and its exit code unless a signal ended it.
    Ran { stdout: Vec<u8>, stderr: Vec<u8>, code: Option<i32> },
    /// Of `Shell`: the command could not be started, for this reason.
    NotRun { reason: String },
}

/// An `Event` as a mathematical value.
pub enum EventView {
    Probed { exists: bool },
    Renamed { failure: Option<Seq<char>> },
    Written { failure: Option<Seq<char>> },
    Listed { entries: Option<Seq<Seq<char>>> },
    Ran { stdout: Seq<u8>, stderr: Seq<u8>, code: Option<i32> },
    NotRun { reason: Seq<char> },
}

/// The texts in a vector of strings.
pub open spec fn names_of(entries: Seq<String>) -> Seq<Seq<char>> {
    Seq::new(entries.len(), |i: int| entries[i]@)
}

/// The text in an optional string.
pub open spec fn reason_of(failure: Option<String>) -> Option<Seq<char>> {
    match failure {
        None => None,
        Some(reason) => Some(reason@),
    }
}

impl View for Event {
    type V = EventView;

    open spec fn view(&self) -> EventView {
        match self {
            Event::Probed { exists } => EventView::Probed { exists: *exists },
            Event::Renamed { failure } => EventView::Renamed { failure: reason_of(*failure) },
            Event::Written { failure } => EventView::Written { failure: reason_of(*failure) },
            Event::Listed { entries } => EventView::Listed {
                entries: match entries {
                    None => None,
                    Some(found) => Some(names_of(found@)),
                },
            },
            Event::Ran { stdout, stderr, code } => EventView::Ran {
                stdout: stdout@,
                stderr: stderr@,
                code: *code,
            },
            Event::NotRun { reason } => EventView::NotRun { reason: reason@ },
        }
    }
}

/// Where the executor stands: what it waits for and what it remembers.
pub enum StageView {
    /// `Copy`: waiting to hear whether the file exists.
    Probing { path: Seq<char>, data: Seq<u8> },
    /// `Copy`: waiting for the move of the file to its backup.
    Renaming { path: Seq<char>, data: Seq<u8> },
    /// `Copy`: waiting for the write of `size` bytes.
    Writing { path: Seq<char>, size: nat, backup: BackupOutcomeView },
    /// `Run`: waiting for the command to end.
    Running { command: Seq<char> },
    /// `Rollback`: waiting for the listing.
    Listing,
    /// `Rollback`: waiting for the move of a backup back to `original`, with
    /// the entries listed after it still `pending`.
    Restoring { original: Seq<char>, pending: Seq<Seq<char>>, done: Seq<EntryOutcomeView> },
    /// Nothing is awaited.
    Done,
}

/// What the reply says of the backup.
pub open spec fn backup_line(backup: BackupOutcomeView, path: Seq<char>) -> Seq<char> {
    match backup {
        BackupOutcomeView::Created(kept) => "Previous version stored at "@ + kept,
        BackupOutcomeView::Failed(_) => "Could not stored previous version at "@ + backup_of(path),
        BackupOutcomeView::NoPriorVersion => "This is the first copy, no previous version found for "@
            + backup_of(path) + ". No rollback will be possible."@,
    }
}

/// What the reply says of the write.
pub open spec fn write_line(path: Seq<char>, size: nat, stored: bool) -> Seq<char> {
    if stored {
        "File of "@ + decimal(size) + " bytes received and stored as "@ + path
    } else {
        "File of "@ + decimal(size) + " bytes received but could not be stored as "@ + path
    }
}

/// The reply to `Copy`: the backup's outcome, a space, the write's outcome.
pub open spec fn copy_text(
    backup: BackupOutcomeView,
    path: Seq<char>,
    size: nat,
    stored: bool,
) -> Seq<char> {
    backup_line(backup, path) + " "@ + write_line(path, size, stored)
}

/// How a command ended, in words.
pub open spec fn exit_text(code: Option<i32>) -> Seq<char> {
    match code {
        Some(number) => signed_decimal(number as int),
        None => "none (terminated by a signal)"@,
    }
}

/// The reply to `Run` for a command that ran.
pub open spec fn run_text(
    command: Seq<char>,
    stdout: Seq<char>,
    stderr: Seq<char>,
    code: Option<i32>,
) -> Seq<char> {
    "Command: "@ + command + " (executed)\nStandard output:\n"@ + stdout + "\nStandard error:\n"@
        + stderr + "\nExit code:"@ + exit_text(code) + "\n"@
}

/// The reply to `Run` for a command that could not be started.
pub open spec fn not_run_text(command: Seq<char>, reason: Seq<char>) -> Seq<char> {
    "Command: "@ + command + " (not executed)\nReason: "@ + reason + "\n"@
}

/// The line of the reply to `Rollback` for one backup.
pub open spec fn entry_line(entry: EntryOutcomeView) -> Seq<char> {
    match entry {
        EntryOutcomeView::Restored(original) => "Restored "@ + original + "\n"@,
        EntryOutcomeView::Failed(original, reason) => "Could not restore "@ + original + ": "@
            + reason + "\n"@,
    }
}

/// The lines for several backups, in their order.
pub open spec fn entry_lines(done: Seq<EntryOutcomeView>) -> Seq<char>
    decreases done.len(),
{
    if done.len() == 0 {
        Seq::empty()
    } else {
        entry_lines(done.drop_last()) + entry_line(done.last())
    }
}

/// The reply to `Rollback`.
pub open spec fn rollback_text(outcome: RestoreOutcomeView) -> Seq<char> {
    match outcome {
        RestoreOutcomeView::Swept(done) => entry_lines(done),
        RestoreOutcomeView::NothingToRestore => "Could not find any previous version for rollback"@,
        RestoreOutcomeView::DirectoryError => "Folder does not exists."@,
    }
}

/// The first stage of a command and the first action it asks for.
pub open spec fn begin(command: CommandView) -> (StageView, ActionView) {
    match command {
        CommandView::Copy { file_path, data } => (
            StageView::Probing { path: file_path, data },
            ActionView::Probe { path: file_path },
        ),
        CommandView::Run { command } => (
            StageView::Running { command },
            ActionView::Shell { command },
        ),
        CommandView::Rollback { file_path } => (StageView::Listing, ActionView::List {
            dir: file_path,
        }),
    }
}

/// The end of an exchange in which the host reported what was not asked for.
pub open spec fn hang_up() -> (StageView, ActionView) {
    (StageView::Done, ActionView::Close)
}

/// A rollback going on with the entries still `pending`: the move of the
/// first backup among them, or the reply if there is none left.
pub open spec fn sweep(pending: Seq<Seq<char>>, done: Seq<EntryOutcomeView>) -> (
    StageView,
    ActionView,
) {
    if first_backup(pending) >= pending.len() {
        (StageView::Done, ActionView::Reply { text: rollback_text(restore_outcome(done)) })
    } else {
        (
            StageView::Restoring {
                original: original_of(pending[first_backup(pending)]),
                pending: pending.skip(first_backup(pending) + 1),
                done,
            },
            ActionView::Rename {
                from: pending[first_backup(pending)],
                to: original_of(pending[first_backup(pending)]),
            },
        )
    }
}

/// The stage and the action that follow when `event` is reported at `stage`.
pub open spec fn react(stage: StageView, event: EventView) -> (StageView, ActionView) {
    match stage {
        StageView::Probing { path, data } => match event {
            EventView::Probed { exists } => if exists {
                (
                    StageView::Renaming { path, data },
                    ActionView::Rename { from: path, to: backup_of(path) },
                )
            } else {
                (
                    StageView::Writing {
                        path,
                        size: data.len(),
                        backup: BackupOutcomeView::NoPriorVersion,
                    },
                    ActionView::Write { path, data },
                )
            },
            _ => hang_up(),
        },
        StageView::Renaming { path, data } => match event {
            EventView::Renamed { failure } => (
                StageView::Writing { path, size: data.len(), backup: backup_outcome(path, failure) },
                ActionView::Write { path, data },
            ),
            _ => hang_up(),
        },
        StageView::Writing { path, size, backup } => match event {
            EventView::Written { failure } => (
                StageView::Done,
                ActionView::Reply { text: copy_text(backup, path, size, failure is None) },
            ),
            _ => hang_up(),
        },
        StageView::Running { command } => match event {
            EventView::Ran { stdout, stderr, code } => (
                StageView::Done,
                ActionView::Reply {
                    text: run_text(command, lossy_text(stdout), lossy_text(stderr), code),
                },
            ),
            EventView::NotRun { reason } => (
                StageView::Done,
                ActionView::Reply { text: not_run_text(command, reason) },
            ),
            _ => hang_up(),
        },
        StageView::Listing => match event {
            EventView::Listed { entries: Some(found) } => sweep(found, Seq::empty()),
            EventView::Listed { entries: None } => (
                StageView::Done,
                ActionView::Reply { text: rollback_text(RestoreOutcomeView::DirectoryError) },
            ),
            _ => hang_up(),
        },
        StageView::Restoring { original, pending, done } => match event {
            EventView::Renamed { failure } => sweep(
                pending,
                done.push(entry_outcome(original, failure)),
            ),
            _ => hang_up(),
        },
        StageView::Done => hang_up(),
    }
}

/// Writes the reply to `Copy`.
pub fn copy_response(backup: &BackupOutcome, path: &str, size: usize, stored: bool) -> (text:
    String)
    ensures
        text@ == copy_text(backup@, path@, size as nat, stored),
{
    let mut text: String = match backup {
        BackupOutcome::Created(kept) => {
            let mut line: String = String::from_str("Previous version stored at ");
            line.append(kept.as_str());
            line
        },
        BackupOutcome::Failed(_) => {
            let mut line: String = String::from_str("Could not stored previous version at ");
            line.append(backup_path(path).as_str());
            line
        },
        BackupOutcome::NoPriorVersion => {
            let mut line: String = String::from_str(
                "This is the first copy, no previous version found for ",
            );
            line.append(backup_path(path).as_str());
            line.append(". No rollback will be possible.");
            line
        },
    };
    assert(text@ == backup_line(backup@, path@));
    text.append(" ");
    text.append("File of ");
    text.append(decimal_text(size as u64).as_str());
    if stored {
        text.append(" bytes received and stored as ");
    } else {
        text.append(" bytes received but could not be stored as ");
    }
    text.append(path);
    assert(text@ =~= copy_text(backup@, path@, size as nat, stored));
    text
}

/// Writes the reply to `Run` for a command that ran, from what it printed,
/// already as text.
pub fn run_response(command: &str, stdout: &str, stderr: &str, code: Option<i32>) -> (text:
    String)
    ensures
        text@ == run_text(command@, stdout@, stderr@, code),
{
    let mut text: String = String::from_str("Command: ");
    text.append(command);
    text.append(" (executed)\nStandard output:\n");
    text.append(stdout);
    text.append("\nStandard error:\n");
    text.append(stderr);
    text.append("\nExit code:");
    match code {
        Some(number) => {
            text.append(signed_decimal_text(number as i64).as_str());
        },
        None => {
            text.append("none (terminated by a signal)");
        },
    }
    text.append("\n");
    text
}

/// Writes the reply to `Run` for a command that could not be started.
pub fn not_run_response(command: &str, reason: &str) -> (text: String)
    ensures
        text@ == not_run_text(command@, reason@),
{
    let mut text: String = String::from_str("Command: ");
    text.append(command);
    text.append(" (not executed)\nReason: ");
    text.append(reason);
    text.append("\n");
    text
}

/// Writes the reply to `Rollback`.
pub fn rollback_response(outcome: &RestoreOutcome) -> (text: String)
    ensures
        text@ == rollback_text(outcome@),
{
    match outcome {
        RestoreOutcome::NothingToRestore => String::from_str(
            "Could not find any previous version for rollback",
        ),
        RestoreOutcome::DirectoryError => String::from_str("Folder does not exists."),
        RestoreOutcome::Swept(entries) => {
            let ghost done = outcomes_of(entries@);
            let mut text: String = String::new();
            let mut i: usize = 0;
            while i < entries.len()
                invariant
                    i <= entries@.len(),
                    done == outcomes_of(entries@),
                    text@ == entry_lines(done.take(i as int)),
                decreases entries@.len() - i,
            {
                match &entries[i] {
                    EntryOutcome::Restored(original) => {
                        text.append("Restored ");
                        text.append(original.as_str());
                        text.append("\n");
                    },
                    EntryOutcome::Failed(original, reason) => {
                        text.append("Could not restore ");
                        text.append(original.as_str());
                        text.append(": ");
                        text.append(reason.as_str());
                        text.append("\n");
                    },
                }
                proof {
                    let next = done.take(i + 1);
                    assert(next.drop_last() =~= done.take(i as int));
                    assert(next.last() == entries@[i as int]@);
                    assert(text@ =~= entry_lines(next));
                }
                i = i + 1;
            }
            assert(done.take(i as int) =~= done);
            text
        },
    }
}

/// The entries from position `next` on.
spec fn pending_of(entries: Seq<String>, next: int) -> Seq<Seq<char>> {
    if 0 <= next <= entries.len() {
        names_of(entries).skip(next)
    } else {
        Seq::empty()
    }
}

enum Stage {
    Probing { path: String, data: Vec<u8> },
    Renaming { path: String, data: Vec<u8> },
    Writing { path: String, size: usize, backup: BackupOutcome },
    Running { command: String },
    Listing,
    Restoring { original: String, entries: Vec<String>, next: usize, done: Vec<EntryOutcome> },
    Done,
}

impl Stage {
    spec fn view(&self) -> StageView {
        match self {
            Stage::Probing { path, data } => StageView::Probing { path: path@, data: data@ },
            Stage::Renaming { path, data } => StageView::Renaming { path: path@, data: data@ },
            Stage::Writing { path, size, backup } => StageView::Writing {
                path: path@,
                size: *size as nat,
                backup: backup@,
            },
            Stage::Running { command } => StageView::Running { command: command@ },
            Stage::Listing => StageView::Listing,
            Stage::Restoring { original, entries, next, done } => StageView::Restoring {
                original: original@,
                pending: pending_of(entries@, *next as int),
                done: outcomes_of(done@),
            },
            Stage::Done => StageView::Done,
        }
    }
}

/// The position of the first backup at or after `from`, or past the end.
fn seek(entries: &Vec<String>, from: usize) -> (at: usize)
    ensures
        at == from + first_backup(pending_of(entries@, from as int)),
        from <= entries@.len() ==> at <= entries@.len(),
{
    let mut at: usize = from;
    while at < entries.len()
        invariant
            from <= at,
            from <= entries@.len() ==> at <= entries@.len(),
            from + first_backup(pending_of(entries@, from as int)) == at + first_backup(
                pending_of(entries@, at as int),
            ),
        decreases entries@.len() - at,
    {
        let ghost here = pending_of(entries@, at as int);
        assert(here[0] == entries@[at as int]@);
        if is_backup_name(entries[at].as_str()) {
            return at;
        }
        assert(here.drop_first() =~= pending_of(entries@, at + 1));
        at = at + 1;
    }
    at
}

/// Goes on with a rollback from position `from`.
fn resume(entries: Vec<String>, from: usize, done: Vec<EntryOutcome>) -> (next: (Stage, Action))
    ensures
        (next.0.view(), next.1@) == sweep(pending_of(entries@, from as int), outcomes_of(done@)),
{
    let ghost pending = pending_of(entries@, from as int);
    proof {
        first_backup_is_first(pending);
    }
    let at: usize = seek(&entries, from);
    if at >= entries.len() {
        let outcome: RestoreOutcome = if done.len() == 0 {
            RestoreOutcome::NothingToRestore
        } else {
            RestoreOutcome::Swept(done)
        };
        return (Stage::Done, Action::Reply { text: rollback_response(&outcome) });
    }
    assert(pending[at - from] == entries@[at as int]@);
    let name: String = entries[at].clone();
    let original: String = restored_path(name.as_str());
    let to: String = original.clone();
    assert(pending.skip(at - from + 1) =~= pending_of(entries@, at + 1));
    (Stage::Restoring { original, entries, next: at + 1, done }, Action::Rename { from: name, to })
}

/// The state of one command being carried out.
pub struct Executor {
    stage: Stage,
}

impl View for Executor {
    type V = StageView;

    closed spec fn view(&self) -> StageView {
        self.stage.view()
    }
}

impl Executor {
    /// Starts on a command: the executor for it and the first action it needs.
    pub fn begin(command: Command) -> (first: (Executor, Action))
        ensures
            (first.0@, first.1@) == begin(command@),
    {
        match command {
            Command::Copy { file_path, data } => {
                let path: String = file_path.clone();
                (Executor { stage: Stage::Probing { path: file_path, data } }, Action::Probe { path })
            },
            Command::Run { command } => {
                let line: String = command.clone();
                (Executor { stage: Stage::Running { command } }, Action::Shell { command: line })
            },
            Command::Rollback { file_path } => (
                Executor { stage: Stage::Listing },
                Action::List { dir: file_path },
            ),
        }
    }

    /// Tells whether the command is done: nothing is awaited any more.
    pub fn is_done(&self) -> (done: bool)
        ensures
            done == (self@ is Done),
    {
        match &self.stage {
            Stage::Done => true,
            _ => false,
        }
    }

    /// Takes the host's report of the action asked for last and gives the
    /// next action. A report of anything else ends the exchange.
    pub fn step(self, event: Event) -> (next: (Executor, Action))
        ensures
            (next.0@, next.1@) == react(self@, event@),
    {
        let (stage, action) = match self.stage {
            Stage::Probing { path, data } => match event {
                Event::Probed { exists } => if exists {
                    let from: String = path.clone();
                    let to: String = backup_path(path.as_str());
                    (Stage::Renaming { path, data }, Action::Rename { from, to })
                } else {
                    let target: String = path.clone();
                    let size: usize = data.len();
                    (
                        Stage::Writing { path, size, backup: BackupOutcome::NoPriorVersion },
                        Action::Write { path: target, data },
                    )
                },
                _ => (Stage::Done, Action::Close),
            },
            Stage::Renaming { path, data } => match event {
                Event::Renamed { failure } => {
                    let backup: BackupOutcome = match failure {
                        None => BackupOutcome::Created(backup_path(path.as_str())),
                        Some(reason) => BackupOutcome::Failed(reason),
                    };
                    let target: String = path.clone();
                    let size: usize = data.len();
                    (Stage::Writing { path, size, backup }, Action::Write { path: target, data })
                },
                _ => (Stage::Done, Action::Close),
            },
            Stage::Writing { path, size, backup } => match event {
                Event::Written { failure } => {
                    let text: String = copy_response(
                        &backup,
                        path.as_str(),
                        size,
                        failure.is_none(),
                    );
                    (Stage::Done, Action::Reply { text })
                },
                _ => (Stage::Done, Action::Close),
            },
            Stage::Running { command } => match event {
                Event::Ran { stdout, stderr, code } => {
                    let printed: String = decode_lossy(stdout.as_slice());
                    let complained: String = decode_lossy(stderr.as_slice());
                    let text: String = run_response(
                        command.as_str(),
                        printed.as_str(),
                        complained.as_str(),
                        code,
                    );
                    (Stage::Done, Action::Reply { text })
                },
                Event::NotRun { reason } => {
                    let text: String = not_run_response(command.as_str(), reason.as_str());
                    (Stage::Done, Action::Reply { text })
                },
                _ => (Stage::Done, Action::Close),
            },
            Stage::Listing => match event {
                Event::Listed { entries } => match entries {
                    Some(found) => {
                        let done: Vec<EntryOutcome> = Vec::new();
                        assert(outcomes_of(done@) =~= Seq::<EntryOutcomeView>::empty());
                        assert(pending_of(found@, 0) =~= names_of(found@));
                        resume(found, 0, done)
                    },
                    None => {
                        let text: String = rollback_response(&RestoreOutcome::DirectoryError);
                        (Stage::Done, Action::Reply { text })
                    },
                },
                _ => (Stage::Done, Action::Close),
            },
            Stage::Restoring { original, entries, next, done } => match event {
                Event::Renamed { failure } => {
                    let ghost before = outcomes_of(done@);
                    let ghost name = original@;
                    let entry: EntryOutcome = match failure {
                        None => EntryOutcome::Restored(original),
                        Some(reason) => EntryOutcome::Failed(original, reason),
                    };
                    let mut done = done;
                    done.push(entry);
                    assert(outcomes_of(done@) =~= before.push(
                        entry_outcome(name, reason_of(failure)),
                    ));
                    resume(entries, next, done)
                },
                _ => (Stage::Done, Action::Close),
            },
            Stage::Done => (Stage::Done, Action::Close),
        };
        (Executor { stage }, action)
    }
}

} // verus!
