//! The backup slot: the one earlier version of a file, kept beside it under
//! the file's path with `.prev` added.
//!
//! A newer backup replaces an older one; there is never a second generation.
//! A name that ends in `.prev` is taken for the backup of the name without
//! that ending, once removed.

use crate::text::ends_with;
use crate::text::has_suffix;
use crate::text::joined;
use crate::text::without_last;
use vstd::prelude::*;

verus! {

/// The ending of a backup's name: `.prev`.
pub open spec fn suffix() -> Seq<char> {
    seq!['.', 'p', 'r', 'e', 'v']
}

/// The path of the backup of the file at `path`.
pub open spec fn backup_of(path: Seq<char>) -> Seq<char> {
    path + suffix()
}

/// `name` is the name of a backup.
pub open spec fn is_backup(name: Seq<char>) -> bool {
    ends_with(name, suffix())
}

/// The name of the file that the backup `name` belongs to.
pub open spec fn original_of(name: Seq<char>) -> Seq<char>
    recommends
        is_backup(name),
{
    name.take(name.len() - suffix().len())
}

/// What became of the earlier version when a file was about to be written.
#[derive(Clone, Debug, PartialEq, Eq)]
pub enum BackupOutcome {
    /// It was moved to the backup at this path.
    Created(String),
    /// There was none: this is the first write, and nothing to roll back to.
    NoPriorVersion,
    /// It could not be moved, for this reason.
    Failed(String),
}

/// A `BackupOutcome` as a mathematical value.
pub enum BackupOutcomeView {
    Created(Seq<char>),
    NoPriorVersion,
    Failed(Seq<char>),
}

impl View for BackupOutcome {
    type V = BackupOutcomeView;

    open spec fn view(&self) -> BackupOutcomeView {
        match self {
            BackupOutcome::Created(path) => BackupOutcomeView::Created(path@),
            BackupOutcome::NoPriorVersion => BackupOutcomeView::NoPriorVersion,
            BackupOutcome::Failed(reason) => BackupOutcomeView::Failed(reason@),
        }
    }
}

/// What became of one backup during a rollback.
#[derive(Clone, Debug, PartialEq, Eq)]
pub enum EntryOutcome {
    /// It was moved back to this name.
    Restored(String),
    /// It could not be moved back to this name, for this reason.
    Failed(String, String),
}

/// An `EntryOutcome` as a mathematical value.
pub enum EntryOutcomeView {
    Restored(Seq<char>),
    Failed(Seq<char>, Seq<char>),
}

impl View for EntryOutcome {
    type V = EntryOutcomeView;

    open spec fn view(&self) -> EntryOutcomeView {
        match self {
            EntryOutcome::Restored(original) => EntryOutcomeView::Restored(original@),
            EntryOutcome::Failed(original, reason) => EntryOutcomeView::Failed(
                original@,
                reason@,
            ),
        }
    }
}

/// What a rollback over a directory came to.
#[derive(Clone, Debug, PartialEq, Eq)]
pub enum RestoreOutcome {
    /// Backups were found: one outcome for each, in the order they were listed.
    Swept(Vec<EntryOutcome>),
    /// The directory holds no backup.
    NothingToRestore,
    /// The directory could not be listed.
    DirectoryError,
}

/// A `RestoreOutcome` as a mathematical value.
pub enum RestoreOutcomeView {
    Swept(Seq<EntryOutcomeView>),
    NothingToRestore,
    DirectoryError,
}

/// The outcomes in a vector, each as a mathematical value.
pub open spec fn outcomes_of(entries: Seq<EntryOutcome>) -> Seq<EntryOutcomeView> {
    Seq::new(entries.len(), |i: int| entries[i]@)
}

impl View for RestoreOutcome {
    type V = RestoreOutcomeView;

    open spec fn view(&self) -> RestoreOutcomeView {
        match self {
            RestoreOutcome::Swept(entries) => RestoreOutcomeView::Swept(outcomes_of(entries@)),
            RestoreOutcome::NothingToRestore => RestoreOutcomeView::NothingToRestore,
            RestoreOutcome::DirectoryError => RestoreOutcomeView::DirectoryError,
        }
    }
}

/// The outcome of moving a file to its backup, from what the move reported.
pub open spec fn backup_outcome(path: Seq<char>, failure: Option<Seq<char>>) -> BackupOutcomeView {
    match failure {
        None => BackupOutcomeView::Created(backup_of(path)),
        Some(reason) => BackupOutcomeView::Failed(reason),
    }
}

/// The outcome of moving a backup back to `original`, from what the move reported.
pub open spec fn entry_outcome(original: Seq<char>, failure: Option<Seq<char>>) -> EntryOutcomeView {
    match failure {
        None => EntryOutcomeView::Restored(original),
        Some(reason) => EntryOutcomeView::Failed(original, reason),
    }
}

/// The outcome of a rollback that listed the directory, from the outcomes of
/// the backups it found.
pub open spec fn restore_outcome(done: Seq<EntryOutcomeView>) -> RestoreOutcomeView {
    if done.len() == 0 {
        RestoreOutcomeView::NothingToRestore
    } else {
        RestoreOutcomeView::Swept(done)
    }
}

/// The position of the first backup among `names`, or their number if none
/// of them is a backup.
pub open spec fn first_backup(names: Seq<Seq<char>>) -> int
    decreases names.len(),
{
    if names.len() == 0 {
        0
    } else if is_backup(names[0]) {
        0
    } else {
        1 + first_backup(names.drop_first())
    }
}

/// A backup's name is the name of a backup, of the file it was made for and
/// of no other.
pub proof fn original_of_backup(path: Seq<char>)
    ensures
        is_backup(backup_of(path)),
        original_of(backup_of(path)) == path,
        backup_of(path) != path,
{
    let name = backup_of(path);
    assert(name.skip(name.len() - suffix().len()) =~= suffix());
    assert(name.take(name.len() - suffix().len()) =~= path);
}

/// Every name of a backup is the backup of its original.
pub proof fn backup_of_original(name: Seq<char>)
    requires
        is_backup(name),
    ensures
        backup_of(original_of(name)) == name,
{
    let cut = name.len() - suffix().len();
    assert(name =~= name.take(cut) + name.skip(cut));
}

/// Different files have different backups.
pub proof fn backup_of_is_injective(first: Seq<char>, second: Seq<char>)
    requires
        backup_of(first) == backup_of(second),
    ensures
        first == second,
{
    original_of_backup(first);
    original_of_backup(second);
}

/// `first_backup` finds a backup, and passes over none on its way.
pub proof fn first_backup_is_first(names: Seq<Seq<char>>)
    ensures
        0 <= first_backup(names) <= names.len(),
        first_backup(names) < names.len() ==> is_backup(names[first_backup(names)]),
        forall|i: int| 0 <= i < first_backup(names) ==> !is_backup(#[trigger] names[i]),
    decreases names.len(),
{
    if names.len() > 0 && !is_backup(names[0]) {
        let rest = names.drop_first();
        first_backup_is_first(rest);
        assert forall|i: int| 0 <= i < first_backup(names) implies !is_backup(
            #[trigger] names[i],
        ) by {
            if i > 0 {
                assert(names[i] == rest[i - 1]);
            }
        }
    }
}

/// The ending of a backup's name.
pub fn backup_suffix() -> (text: &'static str)
    ensures
        text@ == suffix(),
{
    proof {
        reveal_strlit(".prev");
    }
    let text: &'static str = ".prev";
    assert(text@ =~= suffix());
    text
}

/// The path under which the earlier version of `path` is kept.
pub fn backup_path(path: &str) -> (backup: String)
    ensures
        backup@ == backup_of(path@),
{
    joined(path, backup_suffix())
}

/// Tells whether `name` is the name of a backup.
pub fn is_backup_name(name: &str) -> (found: bool)
    ensures
        found == is_backup(name@),
{
    has_suffix(name, backup_suffix())
}

/// The name that the backup `name` is moved back to.
pub(crate) fn restored_path(name: &str) -> (original: String)
    requires
        is_backup(name@),
    ensures
        original@ == original_of(name@),
{
    without_last(name, 5)
}

/// The name that the backup `name` is moved back to, if `name` is a backup.
pub fn original_path(name: &str) -> (original: Option<String>)
    ensures
        original is Some <==> is_backup(name@),
        original is Some ==> original->0@ == original_of(name@),
{
    if is_backup_name(name) {
        Some(restored_path(name))
    } else {
        None
    }
}

} // verus!
