//! What a crash can leave behind when the steps of a write are carried out in order.
//!
//! The model follows one target file. A file holds content in the cache of the operating system;
//! only what was flushed is sure to be on the device. The directory entry of the target, too, has
//! a cached and a durable form. After a crash either form of the entry may be found, and of a file
//! that was not flushed any content at all. The directory of the target may itself have been made
//! for the write: no step flushes the directories above it, so a crash may take it back with all it
//! holds.

use vstd::prelude::*;

use crate::files::Step;

verus! {

/// A file: its content, and whether that content is flushed to the device.
pub struct File {
    pub content: Seq<u8>,
    pub flushed: bool,
}

/// The disk, as far as one write is concerned.
pub struct Disk {
    /// The file that the target's name leads to now.
    pub target: Option<File>,
    /// The file that the target's name leads to on the device.
    pub durable: Option<File>,
    /// The temporary file.
    pub temp: Option<File>,
    /// Whether the target's directory is sure to be on the device.
    pub folder: bool,
}

/// A disk at rest, whose target holds `old`, or does not exist; `folder` says whether its directory
/// is there, on the device.
pub open spec fn at_rest(old: Option<Seq<u8>>, folder: bool) -> Disk {
    let file = match old {
        Some(content) => Some(File { content, flushed: true }),
        None => None,
    };
    Disk { target: file, durable: file, temp: None, folder }
}

/// The disk after a step that was carried out. Where the platform does not buffer renames, a rename
/// is durable at once.
pub open spec fn done(step: Step, new: Seq<u8>, buffered: bool, disk: Disk) -> Disk {
    match step {
        Step::CreateDirs(_) => disk,
        Step::CreateTemp(_, _) => Disk {
            temp: Some(File { content: Seq::empty(), flushed: false }),
            ..disk
        },
        Step::WriteTemp => Disk { temp: Some(File { content: new, flushed: false }), ..disk },
        Step::FlushTemp => match disk.temp {
            Some(file) => Disk {
                temp: Some(File { content: file.content, flushed: true }),
                ..disk
            },
            None => disk,
        },
        Step::Rename(_) => Disk {
            target: disk.temp,
            durable: if buffered {
                disk.durable
            } else {
                disk.temp
            },
            temp: None,
            folder: disk.folder,
        },
        Step::FlushDir(_) => Disk { durable: disk.target, ..disk },
        Step::Refuse(_) => disk,
    }
}

/// That `after` may be the disk when a step failed, or was broken off, on the disk `before`.
pub open spec fn broken_off(
    step: Step,
    new: Seq<u8>,
    buffered: bool,
    before: Disk,
    after: Disk,
) -> bool {
    match step {
        Step::CreateDirs(_) | Step::Refuse(_) => after == before,
        // Whatever became of the temporary file, the target is not touched.
        Step::CreateTemp(_, _) | Step::WriteTemp | Step::FlushTemp => after.target == before.target
            && after.durable == before.durable && after.folder == before.folder,
        // A rename happens or it does not.
        Step::Rename(_) => after == before || after == done(step, new, buffered, before),
        Step::FlushDir(_) => after == before || after == done(step, new, buffered, before),
    }
}

/// That `after` may be the disk when a step failed with an error on the disk `before`, and the
/// temporary file was then removed if `removed` says so. A step that fails has not happened: only of
/// a flush that failed it is not known whether the entry has reached the device.
pub open spec fn failed(step: Step, removed: bool, before: Disk, after: Disk) -> bool {
    &&& after.target == before.target
    &&& after.folder == before.folder
    &&& after.durable == before.durable || (step is FlushDir && after.durable == before.target)
    &&& after.temp == if removed {
        None
    } else {
        before.temp
    }
}

/// The disk after the first `count` steps of a plan.
pub open spec fn disk_after(
    plan: Seq<Step>,
    count: nat,
    new: Seq<u8>,
    buffered: bool,
    start: Disk,
) -> Disk
    decreases count,
{
    if count == 0 {
        start
    } else {
        done(
            plan[count - 1],
            new,
            buffered,
            disk_after(plan, (count - 1) as nat, new, buffered, start),
        )
    }
}

/// That a file, found after a crash, may hold `seen`: its content if it was flushed, otherwise
/// anything.
pub open spec fn crashed_file(file: Option<File>, seen: Option<Seq<u8>>) -> bool {
    match file {
        Some(f) => seen matches Some(content) && (f.flushed ==> content == f.content),
        None => seen is None,
    }
}

/// That the target may hold `seen` after a crash of this disk. A directory that was not sure to be
/// on the device may be gone, and the target with it.
pub open spec fn crash_can_leave(disk: Disk, seen: Option<Seq<u8>>) -> bool {
    crashed_file(disk.target, seen) || crashed_file(disk.durable, seen) || (!disk.folder
        && seen is None)
}

/// That a disk can be at rest like this: a target that exists is in a directory that does.
pub open spec fn can_rest(old: Option<Seq<u8>>, folder: bool) -> bool {
    old is Some ==> folder
}

/// What a reader of the target sees without a crash.
pub open spec fn read_target(disk: Disk) -> Option<Seq<u8>> {
    match disk.target {
        Some(file) => Some(file.content),
        None => None,
    }
}

/// That a disk shows the target's old content or its new, before and after a crash, and nothing
/// else.
pub open spec fn old_or_new(disk: Disk, old: Option<Seq<u8>>, new: Seq<u8>) -> bool {
    &&& read_target(disk) == old || read_target(disk) == Some(new)
    &&& forall|seen: Option<Seq<u8>>| #[trigger]
        crash_can_leave(disk, seen) ==> seen == old || seen == Some(new)
}

/// The disk after each number of steps of a write, spelled out.
proof fn lemma_disk_after(
    dirs: Seq<Seq<u8>>,
    temp_dir: Seq<u8>,
    target: Seq<u8>,
    dir: Result<Seq<u8>, crate::files::PathError>,
    flush_dirs: bool,
    count: nat,
    old: Option<Seq<u8>>,
    folder: bool,
    new: Seq<u8>,
)
    requires
        count <= crate::files::write_steps(dirs, temp_dir, target, dir, flush_dirs).len(),
    ensures
        ({
            let plan = crate::files::write_steps(dirs, temp_dir, target, dir, flush_dirs);
            let disk = disk_after(plan, count, new, flush_dirs, at_rest(old, folder));
            let start = at_rest(old, folder);
            let file = File { content: new, flushed: true };
            let n = dirs.len();
            &&& disk.folder == folder
            &&& count <= n ==> disk == start
            &&& n < count <= n + 3 ==> disk.target == start.target && disk.durable == start.durable
            &&& count == n + 2 ==> disk.temp == Some(File { content: new, flushed: false })
            &&& count == n + 3 ==> disk.temp == Some(file)
            &&& count == n + 4 ==> disk == (Disk {
                target: Some(file),
                durable: if flush_dirs {
                    start.durable
                } else {
                    Some(file)
                },
                temp: None,
                folder,
            })
            &&& count == n + 5 && dir is Ok ==> disk == (Disk {
                target: Some(file),
                durable: Some(file),
                temp: None,
                folder,
            })
            &&& count == n + 5 && dir is Err ==> disk == (Disk {
                target: Some(file),
                durable: start.durable,
                temp: None,
                folder,
            })
        }),
    decreases count,
{
    let plan = crate::files::write_steps(dirs, temp_dir, target, dir, flush_dirs);
    let n = dirs.len();
    if count > 0 {
        lemma_disk_after(
            dirs,
            temp_dir,
            target,
            dir,
            flush_dirs,
            (count - 1) as nat,
            old,
            folder,
            new,
        );
        let step = plan[count - 1];
        if count <= n {
            assert(step == Step::CreateDirs(dirs[count - 1]));
        } else {
            assert(count == n + 1 ==> step == Step::CreateTemp(temp_dir, crate::files::TEMP_PREFIX@));
            assert(count == n + 2 ==> step == Step::WriteTemp);
            assert(count == n + 3 ==> step == Step::FlushTemp);
            assert(count == n + 4 ==> step == Step::Rename(target));
        }
    }
}

/// Whenever a write stops, the target shows its old content or the new, never a mix: after any
/// number of steps, and when the next step fails or is broken off half-way, both to a reader and
/// after a crash.
pub proof fn law_target_is_old_or_new(
    dirs: Seq<Seq<u8>>,
    temp_dir: Seq<u8>,
    target: Seq<u8>,
    dir: Result<Seq<u8>, crate::files::PathError>,
    flush_dirs: bool,
    count: nat,
    old: Option<Seq<u8>>,
    folder: bool,
    new: Seq<u8>,
    stopped: Disk,
)
    requires
        can_rest(old, folder),
        count <= crate::files::write_steps(dirs, temp_dir, target, dir, flush_dirs).len(),
        ({
            let plan = crate::files::write_steps(dirs, temp_dir, target, dir, flush_dirs);
            let disk = disk_after(plan, count, new, flush_dirs, at_rest(old, folder));
            stopped == disk || (count < plan.len() && broken_off(
                plan[count as int],
                new,
                flush_dirs,
                disk,
                stopped,
            ))
        }),
    ensures
        old_or_new(stopped, old, new),
{
    let plan = crate::files::write_steps(dirs, temp_dir, target, dir, flush_dirs);
    let n = dirs.len();
    lemma_disk_after(dirs, temp_dir, target, dir, flush_dirs, count, old, folder, new);
    if count < plan.len() {
        let step = plan[count as int];
        if count < n {
            assert(step == Step::CreateDirs(dirs[count as int]));
        } else {
            assert(count == n ==> step == Step::CreateTemp(temp_dir, crate::files::TEMP_PREFIX@));
            assert(count == n + 1 ==> step == Step::WriteTemp);
            assert(count == n + 2 ==> step == Step::FlushTemp);
            assert(count == n + 3 ==> step == Step::Rename(target));
        }
    }
}

/// As long as the rename was not begun, the target is as it was: a write that fails before it
/// changes nothing there.
pub proof fn law_failure_before_the_rename_changes_nothing(
    dirs: Seq<Seq<u8>>,
    temp_dir: Seq<u8>,
    target: Seq<u8>,
    dir: Result<Seq<u8>, crate::files::PathError>,
    flush_dirs: bool,
    count: nat,
    old: Option<Seq<u8>>,
    folder: bool,
    new: Seq<u8>,
    stopped: Disk,
)
    requires
        can_rest(old, folder),
        count < dirs.len() + 3,
        ({
            let plan = crate::files::write_steps(dirs, temp_dir, target, dir, flush_dirs);
            let disk = disk_after(plan, count, new, flush_dirs, at_rest(old, folder));
            broken_off(plan[count as int], new, flush_dirs, disk, stopped)
        }),
    ensures
        read_target(stopped) == old,
        forall|seen: Option<Seq<u8>>| #[trigger] crash_can_leave(stopped, seen) ==> seen == old,
{
    let plan = crate::files::write_steps(dirs, temp_dir, target, dir, flush_dirs);
    let n = dirs.len();
    lemma_disk_after(dirs, temp_dir, target, dir, flush_dirs, count, old, folder, new);
    let step = plan[count as int];
    if count < n {
        assert(step == Step::CreateDirs(dirs[count as int]));
    } else {
        assert(count == n ==> step == Step::CreateTemp(temp_dir, crate::files::TEMP_PREFIX@));
        assert(count == n + 1 ==> step == Step::WriteTemp);
        assert(count == n + 2 ==> step == Step::FlushTemp);
    }
}

/// A write that was carried out to the end has put the new content in place and leaves no temporary
/// file. It is durable where the target's directory was there before: a crash cannot take the new
/// content back. A crash may still take back a directory that was made for the write, with the
/// target in it; it leaves no other content there.
pub proof fn law_finished_write_is_durable(
    dirs: Seq<Seq<u8>>,
    temp_dir: Seq<u8>,
    target: Seq<u8>,
    dir: Seq<u8>,
    flush_dirs: bool,
    old: Option<Seq<u8>>,
    folder: bool,
    new: Seq<u8>,
)
    ensures
        ({
            let plan = crate::files::write_steps(dirs, temp_dir, target, Ok(dir), flush_dirs);
            let disk = disk_after(plan, plan.len(), new, flush_dirs, at_rest(old, folder));
            &&& read_target(disk) == Some(new)
            &&& disk.temp is None
            &&& forall|seen: Option<Seq<u8>>| #[trigger]
                crash_can_leave(disk, seen) ==> seen == Some(new) || (!folder && seen is None)
        }),
{
    let plan = crate::files::write_steps(dirs, temp_dir, target, Ok(dir), flush_dirs);
    lemma_disk_after(dirs, temp_dir, target, Ok(dir), flush_dirs, plan.len(), old, folder, new);
}

/// That `after` may be the disk of a write of `plan` that took the steps with these results, of
/// which the last is a failure.
pub open spec fn given_up<E>(
    plan: Seq<Step>,
    results: Seq<Result<(), E>>,
    new: Seq<u8>,
    buffered: bool,
    old: Option<Seq<u8>>,
    folder: bool,
    after: Disk,
) -> bool {
    &&& crate::files::write_history(plan, results)
    &&& results.len() > 0
    &&& results.last() is Err
    &&& failed(
        plan[results.len() - 1],
        crate::files::write_run(plan, results) is Abandon,
        disk_after(plan, (results.len() - 1) as nat, new, buffered, at_rest(old, folder)),
        after,
    )
}

/// A write that fails at any step up to the rename, which counts among them, leaves the target as it
/// was, also after a crash, and leaves no temporary file.
pub proof fn law_failed_write_changes_nothing<E>(
    dirs: Seq<Seq<u8>>,
    temp_dir: Seq<u8>,
    target: Seq<u8>,
    dir: Result<Seq<u8>, crate::files::PathError>,
    flush_dirs: bool,
    results: Seq<Result<(), E>>,
    old: Option<Seq<u8>>,
    folder: bool,
    new: Seq<u8>,
    after: Disk,
)
    requires
        can_rest(old, folder),
        dirs.len() + 5 <= usize::MAX,
        results.len() <= dirs.len() + 4,
        given_up(
            crate::files::write_steps(dirs, temp_dir, target, dir, flush_dirs),
            results,
            new,
            flush_dirs,
            old,
            folder,
            after,
        ),
    ensures
        read_target(after) == old,
        forall|seen: Option<Seq<u8>>| #[trigger] crash_can_leave(after, seen) ==> seen == old,
        after.temp is None,
{
    let plan = crate::files::write_steps(dirs, temp_dir, target, dir, flush_dirs);
    let n = dirs.len();
    let count = (results.len() - 1) as nat;
    crate::files::law_first_failure_ends_the_write(plan, results);
    lemma_disk_after(dirs, temp_dir, target, dir, flush_dirs, count, old, folder, new);
    let step = plan[count as int];
    if count < n {
        assert(step == Step::CreateDirs(dirs[count as int]));
    } else {
        assert(count == n ==> step == Step::CreateTemp(temp_dir, crate::files::TEMP_PREFIX@));
        assert(count == n + 1 ==> step == Step::WriteTemp);
        assert(count == n + 2 ==> step == Step::FlushTemp);
        assert(count == n + 3 ==> step == Step::Rename(target));
    }
}

/// A write that fails after the rename, while it makes it durable, has put the new content in place:
/// a reader sees it, a crash leaves it or the old content, and there is no temporary file.
pub proof fn law_failed_flush_keeps_the_new_content<E>(
    dirs: Seq<Seq<u8>>,
    temp_dir: Seq<u8>,
    target: Seq<u8>,
    dir: Result<Seq<u8>, crate::files::PathError>,
    flush_dirs: bool,
    results: Seq<Result<(), E>>,
    old: Option<Seq<u8>>,
    folder: bool,
    new: Seq<u8>,
    after: Disk,
)
    requires
        can_rest(old, folder),
        dirs.len() + 5 <= usize::MAX,
        results.len() > dirs.len() + 4,
        given_up(
            crate::files::write_steps(dirs, temp_dir, target, dir, flush_dirs),
            results,
            new,
            flush_dirs,
            old,
            folder,
            after,
        ),
    ensures
        read_target(after) == Some(new),
        old_or_new(after, old, new),
        after.temp is None,
{
    let plan = crate::files::write_steps(dirs, temp_dir, target, dir, flush_dirs);
    let count = (results.len() - 1) as nat;
    crate::files::law_first_failure_ends_the_write(plan, results);
    lemma_disk_after(dirs, temp_dir, target, dir, flush_dirs, count, old, folder, new);
}

/// Files by their paths: the content of each that is there.
pub type Files = Map<Seq<u8>, Seq<u8>>;

/// The files after a step of a write of `new` whose temporary file has the path `temp`.
pub open spec fn files_done(step: Step, temp: Seq<u8>, new: Seq<u8>, files: Files) -> Files {
    match step {
        Step::CreateTemp(_, _) => files.insert(temp, Seq::empty()),
        Step::WriteTemp => files.insert(temp, new),
        Step::Rename(to) => files.remove(temp).insert(to, files[temp]),
        Step::CreateDirs(_) | Step::FlushTemp | Step::FlushDir(_) | Step::Refuse(_) => files,
    }
}

/// The files after the first `count` steps of a plan.
pub open spec fn files_after(
    plan: Seq<Step>,
    count: nat,
    temp: Seq<u8>,
    new: Seq<u8>,
    files: Files,
) -> Files
    decreases count,
{
    if count == 0 {
        files
    } else {
        files_done(
            plan[count - 1],
            temp,
            new,
            files_after(plan, (count - 1) as nat, temp, new, files),
        )
    }
}

/// A write changes one file, that at the path it was asked for: once all steps were taken the path
/// holds the new content, every other path what it held, and no temporary file is left. Until the
/// rename only the temporary file is there besides.
pub proof fn law_write_puts_the_content_at_its_path(
    dirs: Seq<Seq<u8>>,
    temp_dir: Seq<u8>,
    target: Seq<u8>,
    dir: Result<Seq<u8>, crate::files::PathError>,
    flush_dirs: bool,
    count: nat,
    temp: Seq<u8>,
    new: Seq<u8>,
    files: Files,
)
    requires
        count <= crate::files::write_steps(dirs, temp_dir, target, dir, flush_dirs).len(),
        temp != target,
        !files.contains_key(temp),
    ensures
        ({
            let plan = crate::files::write_steps(dirs, temp_dir, target, dir, flush_dirs);
            let after = files_after(plan, count, temp, new, files);
            &&& count <= dirs.len() ==> after == files
            &&& dirs.len() < count < dirs.len() + 4 ==> after.remove(temp) == files
                && after.contains_key(temp)
            &&& count >= dirs.len() + 2 && count < dirs.len() + 4 ==> after[temp] == new
            &&& count >= dirs.len() + 4 ==> after == files.insert(target, new)
            &&& plan.len() >= dirs.len() + 4
        }),
    decreases count,
{
    let plan = crate::files::write_steps(dirs, temp_dir, target, dir, flush_dirs);
    let n = dirs.len() as int;
    crate::files::law_steps_of_a_write(dirs, temp_dir, target, dir, flush_dirs);
    if count > 0 {
        law_write_puts_the_content_at_its_path(
            dirs,
            temp_dir,
            target,
            dir,
            flush_dirs,
            (count - 1) as nat,
            temp,
            new,
            files,
        );
        let before = files_after(plan, (count - 1) as nat, temp, new, files);
        let after = files_after(plan, count, temp, new, files);
        if count <= n {
            assert(plan[count - 1] == Step::CreateDirs(dirs[count - 1]));
        } else if count == n + 1 {
            assert(after.remove(temp) =~= files);
        } else if count == n + 2 {
            assert(after.remove(temp) =~= before.remove(temp));
        } else if count == n + 4 {
            assert(after =~= files.insert(target, new));
        }
    }
}

} // verus!
