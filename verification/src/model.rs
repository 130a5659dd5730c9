//! A mathematical file system, and what the executor does to it.
//!
//! The files are a map from path to content, all in one directory. The host
//! of this model does whatever it is asked and reports the truth: a rename
//! fails only if there is nothing to rename, a write never fails, and a
//! listing names the paths it is given to name, whatever directory is asked
//! for. It has no shell: a command line is reported as not run. Running a
//! command against this host shows what the executor's requests come to,
//! taken together.

use crate::backup::backup_of;
use crate::backup::backup_of_original;
use crate::backup::entry_outcome;
use crate::backup::first_backup;
use crate::backup::first_backup_is_first;
use crate::backup::is_backup;
use crate::backup::original_of;
use crate::backup::original_of_backup;
use crate::backup::BackupOutcomeView;
use crate::backup::EntryOutcomeView;
use crate::backup::RestoreOutcomeView;
use crate::command::CommandView;
use crate::executor::begin;
use crate::executor::copy_text;
use crate::executor::react;
use crate::executor::rollback_text;
use crate::executor::sweep;
use crate::executor::ActionView;
use crate::executor::EventView;
use crate::executor::StageView;
use vstd::prelude::*;

verus! {

/// The reason that the model's host gives for a rename it cannot make.
pub open spec fn nothing_there() -> Seq<char> {
    "No such file or directory"@
}

/// What the host does with `action`, and what it reports: the files after
/// it, and the event. `listing` is what a directory listing names.
pub open spec fn perform(
    files: Map<Seq<char>, Seq<u8>>,
    listing: Seq<Seq<char>>,
    action: ActionView,
) -> (Map<Seq<char>, Seq<u8>>, EventView) {
    match action {
        ActionView::Probe { path } => (files, EventView::Probed { exists: files.dom().contains(path) }),
        ActionView::Rename { from, to } => if files.dom().contains(from) {
            (files.remove(from).insert(to, files[from]), EventView::Renamed { failure: None })
        } else {
            (files, EventView::Renamed { failure: Some(nothing_there()) })
        },
        ActionView::Write { path, data } => (
            files.insert(path, data),
            EventView::Written { failure: None },
        ),
        ActionView::List { dir } => (files, EventView::Listed { entries: Some(listing) }),
        ActionView::Shell { command } => (
            files,
            EventView::NotRun { reason: Seq::empty() },
        ),
        ActionView::Reply { text } => (files, EventView::Probed { exists: false }),
        ActionView::Close => (files, EventView::Probed { exists: false }),
    }
}

/// How far a stage is from the end, at most: first by the kind of stage,
/// then by the entries still to look at.
pub open spec fn rank(stage: StageView) -> nat {
    match stage {
        StageView::Probing { .. } => 4,
        StageView::Renaming { .. } => 3,
        StageView::Writing { .. } => 2,
        StageView::Running { .. } => 2,
        StageView::Listing => 3,
        StageView::Restoring { .. } => 2,
        StageView::Done => 0,
    }
}

/// The number of entries that a rollback has still to look at.
pub open spec fn pending_len(stage: StageView) -> nat {
    match stage {
        StageView::Restoring { pending, .. } => pending.len(),
        _ => 0,
    }
}

/// Runs the executor from `stage`, where it has just asked for `action`,
/// against the host, to the end: the files then, and the last action, which
/// is the reply.
pub open spec fn run(
    files: Map<Seq<char>, Seq<u8>>,
    listing: Seq<Seq<char>>,
    stage: StageView,
    action: ActionView,
) -> (Map<Seq<char>, Seq<u8>>, ActionView)
    decreases rank(stage), pending_len(stage),
{
    if action is Reply || action is Close || stage is Done {
        (files, action)
    } else {
        let (after, event) = perform(files, listing, action);
        let (next_stage, next_action) = react(stage, event);
        proof {
            if stage is Restoring {
                first_backup_is_first(stage->pending);
            }
            if stage is Listing && event is Listed && event->entries is Some {
                first_backup_is_first(event->entries->0);
            }
        }
        run(after, listing, next_stage, next_action)
    }
}

/// Carries out `command` against the host: the files afterwards and the reply.
pub open spec fn carry_out(
    files: Map<Seq<char>, Seq<u8>>,
    listing: Seq<Seq<char>>,
    command: CommandView,
) -> (Map<Seq<char>, Seq<u8>>, ActionView) {
    run(files, listing, begin(command).0, begin(command).1)
}

/// The files after `data` was copied to `path`: what was at `path` is now
/// its backup, `data` is at `path`, and every other file is as it was.
pub open spec fn copied(files: Map<Seq<char>, Seq<u8>>, path: Seq<char>, data: Seq<u8>) -> Map<
    Seq<char>,
    Seq<u8>,
> {
    if files.dom().contains(path) {
        files.remove(path).insert(backup_of(path), files[path]).insert(path, data)
    } else {
        files.insert(path, data)
    }
}

/// The backup outcome that the reply to a copy reports.
pub open spec fn copied_backup(files: Map<Seq<char>, Seq<u8>>, path: Seq<char>) -> BackupOutcomeView {
    if files.dom().contains(path) {
        BackupOutcomeView::Created(backup_of(path))
    } else {
        BackupOutcomeView::NoPriorVersion
    }
}

/// `Copy` moves what was at the path to its backup, writes the data, leaves
/// every other file alone, and reports both steps.
pub proof fn copy_effect(
    files: Map<Seq<char>, Seq<u8>>,
    listing: Seq<Seq<char>>,
    path: Seq<char>,
    data: Seq<u8>,
)
    ensures
        carry_out(files, listing, CommandView::Copy { file_path: path, data }) == (
            copied(files, path, data),
            ActionView::Reply {
                text: copy_text(copied_backup(files, path), path, data.len(), true),
            },
        ),
{
    reveal_with_fuel(run, 5);
}

/// Two copies to one path leave the second data at the path and the first
/// data in its backup: one generation of history, never more.
pub proof fn copy_twice_keeps_one_generation(
    files: Map<Seq<char>, Seq<u8>>,
    listing: Seq<Seq<char>>,
    path: Seq<char>,
    first: Seq<u8>,
    second: Seq<u8>,
)
    ensures
        ({
            let once = carry_out(files, listing, CommandView::Copy { file_path: path, data: first }).0;
            let twice = carry_out(once, listing, CommandView::Copy { file_path: path, data: second }).0;
            &&& twice.dom().contains(path)
            &&& twice[path] == second
            &&& twice.dom().contains(backup_of(path))
            &&& twice[backup_of(path)] == first
        }),
{
    copy_effect(files, listing, path, first);
    let once = copied(files, path, first);
    copy_effect(once, listing, path, second);
    original_of_backup(path);
}

/// A rollback over a directory that lists no backup changes no file and
/// answers that there is nothing to restore.
pub proof fn rollback_without_backups(
    files: Map<Seq<char>, Seq<u8>>,
    listing: Seq<Seq<char>>,
    dir: Seq<char>,
)
    requires
        forall|i: int| 0 <= i < listing.len() ==> !is_backup(#[trigger] listing[i]),
    ensures
        carry_out(files, listing, CommandView::Rollback { file_path: dir }) == (
            files,
            ActionView::Reply { text: rollback_text(RestoreOutcomeView::NothingToRestore) },
        ),
{
    reveal_with_fuel(run, 3);
    first_backup_is_first(listing);
}

/// A rollback that goes on over `pending` puts `content` back at `path` and
/// removes the backup of `path`, if that backup holds `content` and is still
/// to come, or if both are so already.
proof fn sweep_restores(
    files: Map<Seq<char>, Seq<u8>>,
    listing: Seq<Seq<char>>,
    pending: Seq<Seq<char>>,
    done: Seq<EntryOutcomeView>,
    path: Seq<char>,
    content: Seq<u8>,
)
    requires
        !is_backup(path),
        pending.no_duplicates(),
        !pending.contains(backup_of(backup_of(path))),
        pending.contains(backup_of(path)) ==> files.dom().contains(backup_of(path))
            && files[backup_of(path)] == content,
        !pending.contains(backup_of(path)) ==> files.dom().contains(path) && files[path]
            == content && !files.dom().contains(backup_of(path)),
    ensures
        ({
            let after = run(files, listing, sweep(pending, done).0, sweep(pending, done).1).0;
            &&& after.dom().contains(path)
            &&& after[path] == content
            &&& !after.dom().contains(backup_of(path))
        }),
    decreases pending.len(),
{
    reveal_with_fuel(run, 2);
    first_backup_is_first(pending);
    original_of_backup(path);
    let at = first_backup(pending);
    let kept = backup_of(path);
    if at >= pending.len() {
        if pending.contains(kept) {
            let i = choose|i: int| 0 <= i < pending.len() && pending[i] == kept;
            assert(!is_backup(pending[i]));
        }
    } else {
        let name = pending[at];
        let original = original_of(name);
        let rest = pending.skip(at + 1);
        backup_of_original(name);
        let (moved, event) = perform(
            files,
            listing,
            ActionView::Rename { from: name, to: original },
        );
        let noted = done.push(entry_outcome(original, event->Renamed_failure));
        assert(run(files, listing, sweep(pending, done).0, sweep(pending, done).1) == run(
            moved,
            listing,
            sweep(rest, noted).0,
            sweep(rest, noted).1,
        ));
        assert forall|i: int, j: int| 0 <= i < rest.len() && 0 <= j < rest.len() && i != j implies rest[i]
            != rest[j] by {
            assert(rest[i] == pending[at + 1 + i]);
            assert(rest[j] == pending[at + 1 + j]);
        }
        assert forall|i: int| 0 <= i < rest.len() implies pending.contains(#[trigger] rest[i]) by {
            assert(rest[i] == pending[at + 1 + i]);
        }
        if rest.contains(backup_of(kept)) {
            let i = choose|i: int| 0 <= i < rest.len() && rest[i] == backup_of(kept);
            assert(pending.contains(rest[i]));
        }
        assert(name != path);
        if name == kept {
            assert(original == path);
            assert(pending.contains(kept));
            if rest.contains(kept) {
                let i = choose|i: int| 0 <= i < rest.len() && rest[i] == kept;
                assert(rest[i] == pending[at + 1 + i]);
            }
        } else {
            if original == path {
                assert(backup_of(original) == kept);
            }
            if original == kept {
                assert(pending.contains(name));
            }
            if pending.contains(kept) {
                let i = choose|i: int| 0 <= i < pending.len() && pending[i] == kept;
                assert(is_backup(pending[i]));
                assert(i > at);
                assert(rest[i - at - 1] == kept);
            } else if rest.contains(kept) {
                let i = choose|i: int| 0 <= i < rest.len() && rest[i] == kept;
                assert(pending.contains(rest[i]));
            }
        }
        sweep_restores(moved, listing, rest, noted, path, content);
    }
}

/// After two copies to one path, a rollback over a listing of the files puts
/// the first data back at the path and leaves no backup of it.
///
/// The path is not itself the name of a backup, and no backup of its backup
/// lies about: a rollback would take the one for a backup to move, and move
/// the other into the backup's place.
pub proof fn rollback_after_copy_twice(
    files: Map<Seq<char>, Seq<u8>>,
    listing: Seq<Seq<char>>,
    dir: Seq<char>,
    path: Seq<char>,
    first: Seq<u8>,
    second: Seq<u8>,
)
    requires
        !is_backup(path),
        !files.dom().contains(backup_of(backup_of(path))),
        listing.no_duplicates(),
        forall|name: Seq<char>|
            listing.contains(name) <==> carry_out(
                carry_out(files, listing, CommandView::Copy { file_path: path, data: first }).0,
                listing,
                CommandView::Copy { file_path: path, data: second },
            ).0.dom().contains(name),
    ensures
        ({
            let once = carry_out(files, listing, CommandView::Copy { file_path: path, data: first }).0;
            let twice = carry_out(once, listing, CommandView::Copy { file_path: path, data: second }).0;
            let back = carry_out(twice, listing, CommandView::Rollback { file_path: dir }).0;
            &&& back.dom().contains(path)
            &&& back[path] == first
            &&& !back.dom().contains(backup_of(path))
        }),
{
    copy_effect(files, listing, path, first);
    let once = copied(files, path, first);
    copy_effect(once, listing, path, second);
    let twice = copied(once, path, second);
    copy_twice_keeps_one_generation(files, listing, path, first, second);
    original_of_backup(path);
    original_of_backup(backup_of(path));
    reveal_with_fuel(run, 2);
    let kept = backup_of(path);
    assert(!twice.dom().contains(backup_of(kept)));
    assert(listing.contains(kept));
    sweep_restores(twice, listing, listing, Seq::empty(), path, first);
}

} // verus!
