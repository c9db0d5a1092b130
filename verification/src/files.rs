//! Crash-safe file writes: which steps to take, in which order.
//!
//! Writing a file in place truncates it first, so a crash in the middle of the write leaves a
//! half-written or empty file. A plan of this module writes the new content to a temporary file on
//! the same volume, flushes it to the device, renames it over the target, and flushes the directory
//! where the platform buffers the rename. The module [`crate::disk`] shows what a crash can leave
//! behind when the steps of such a plan are carried out in order.

use vstd::prelude::*;

verus! {

/// Prefix of every temporary file that a plan creates. A sweep removes only files that carry it,
/// so a staging directory can be shared with other tools without losing their files.
pub const TEMP_PREFIX: &'static str = ".tauri-kit-tmp-";

/// What is wrong with a path.
#[derive(Debug, Clone, Copy, PartialEq, Eq, Structural)]
pub enum PathError {
    /// The path has no parent directory: it is empty, or a root.
    NoParent,
}

/// `std::path::PathBuf`: an owned path. Nothing is claimed of what is inside.
#[verifier::external_type_specification]
#[verifier::external_body]
pub struct ExPathBuf(std::path::PathBuf);

/// The bytes of a path, as the platform encodes them: those of a UTF-8 text for a path that is one.
pub uninterp spec fn path_bytes(path: std::path::PathBuf) -> Seq<u8>;

/// That `parent` is the parent of the path `path` by the rules of the platform. Platforms differ in
/// what separates the components of a path.
pub uninterp spec fn parent_found(path: Seq<u8>, parent: Option<Seq<u8>>) -> bool;

/// The bytes of a path, if there is one.
pub open spec fn some_path(path: Option<std::path::PathBuf>) -> Option<Seq<u8>> {
    match path {
        Some(p) => Some(path_bytes(p)),
        None => None,
    }
}

/// That a path is a bare file name on every platform: one component, with nothing that separates
/// components or ends a drive letter.
pub open spec fn bare_name(path: Seq<u8>) -> bool {
    &&& path.len() > 0
    &&& forall|i: int|
        0 <= i < path.len() ==> #[trigger] path[i] != 0x2f && path[i] != 0x5c && path[i] != 0x3a
}

/// That a path has no parent on any platform: it is empty, or the root `/`.
pub open spec fn parentless(path: Seq<u8>) -> bool {
    path.len() == 0 || path == seq![0x2fu8]
}

/// `std::path::Path::parent`. The contract claims what its documentation says of every platform:
/// the empty path and the root have no parent, and that of a bare file name is the empty path. The
/// rest depends on the platform's separators and is left to the name `parent_found`.
#[verifier::external_body]
fn lexical_parent(path: &std::path::PathBuf) -> (parent: Option<std::path::PathBuf>)
    ensures
        parent_found(path_bytes(*path), some_path(parent)),
        parentless(path_bytes(*path)) ==> parent is None,
        bare_name(path_bytes(*path)) ==> some_path(parent) == Some(Seq::<u8>::empty()),
{
    match path.parent() {
        Some(parent) => Some(parent.to_path_buf()),
        None => None,
    }
}

/// `std::path::Path::as_os_str` and `is_empty` on it. The contract claims that a path is empty when
/// it has no bytes.
#[verifier::external_body]
fn is_empty(path: &std::path::PathBuf) -> (empty: bool)
    ensures
        empty == (path_bytes(*path).len() == 0),
{
    path.as_os_str().is_empty()
}

/// `std::path::PathBuf::from` on a text. The contract claims that the path has the bytes of the
/// text, which the platform's encoding leaves as they are.
#[verifier::external_body]
fn text_path(text: &str) -> (path: std::path::PathBuf)
    ensures
        path_bytes(path) == vstd::utf8::encode_utf8(text@),
{
    std::path::PathBuf::from(text)
}

/// `clone` of a `std::path::PathBuf`. The contract claims that the copy has the same bytes.
pub assume_specification[ <std::path::PathBuf as std::clone::Clone>::clone ](
    path: &std::path::PathBuf,
) -> (copy: std::path::PathBuf)
    ensures
        path_bytes(copy) == path_bytes(*path),
;

/// The path `.`, the current directory.
pub open spec fn current_dir() -> Seq<u8> {
    seq![0x2eu8]
}

/// The directory that holds a file whose path has this parent: the current directory where the
/// parent is the empty path.
pub open spec fn dir_of(parent: Option<Seq<u8>>) -> Result<Seq<u8>, PathError> {
    match parent {
        Some(dir) => if dir.len() == 0 {
            Ok(current_dir())
        } else {
            Ok(dir)
        },
        None => Err(PathError::NoParent),
    }
}

/// The bytes of a path that was asked for, or why there is none.
pub open spec fn path_outcome(res: Result<std::path::PathBuf, PathError>) -> Result<
    Seq<u8>,
    PathError,
> {
    match res {
        Ok(path) => Ok(path_bytes(path)),
        Err(error) => Err(error),
    }
}

/// The directory that holds a file whose path has this parent.
pub fn parent_dir(parent: Option<std::path::PathBuf>) -> (res: Result<
    std::path::PathBuf,
    PathError,
>)
    ensures
        path_outcome(res) == dir_of(some_path(parent)),
{
    match parent {
        Some(dir) => {
            if is_empty(&dir) {
                let dot = text_path(".");
                proof {
                    reveal_strlit(".");
                    vstd::utf8::is_ascii_chars_encode_utf8("."@);
                    assert(path_bytes(dot) =~= current_dir());
                }
                Ok(dot)
            } else {
                Ok(dir)
            }
        },
        None => Err(PathError::NoParent),
    }
}

/// The directory that holds the file at `path`.
pub fn parent_of(path: &std::path::PathBuf) -> (res: Result<std::path::PathBuf, PathError>)
    ensures
        exists|parent: Option<Seq<u8>>| #[trigger]
            parent_found(path_bytes(*path), parent) && path_outcome(res) == dir_of(parent),
        parentless(path_bytes(*path)) ==> path_outcome(res) == Err::<Seq<u8>, PathError>(
            PathError::NoParent,
        ),
        bare_name(path_bytes(*path)) ==> path_outcome(res) == Ok::<Seq<u8>, PathError>(
            current_dir(),
        ),
{
    let parent = lexical_parent(path);
    let ghost found = some_path(parent);
    assert(parent_found(path_bytes(*path), found));
    parent_dir(parent)
}

/// One step of a write, over the bytes of its paths and the text of the prefix.
pub enum Step {
    CreateDirs(Seq<u8>),
    CreateTemp(Seq<u8>, Seq<char>),
    WriteTemp,
    FlushTemp,
    Rename(Seq<u8>),
    FlushDir(Seq<u8>),
    Refuse(PathError),
}

/// One step of a write. The steps of a plan are carried out in order, as [`write_next`] says.
#[derive(Debug)]
pub enum WriteStep {
    /// Create this directory and every missing one above it.
    CreateDirs(std::path::PathBuf),
    /// Create the temporary file in this directory, under a new name that begins with this prefix.
    CreateTemp(std::path::PathBuf, &'static str),
    /// Write the whole content to the temporary file.
    WriteTemp,
    /// Flush the temporary file to the device, not only to the cache: without it the rename can
    /// reach the device before the data does, and a power loss leaves a renamed but empty file.
    FlushTemp,
    /// Rename the temporary file over this path.
    Rename(std::path::PathBuf),
    /// Flush this directory, which makes the rename durable.
    FlushDir(std::path::PathBuf),
    /// Fail with this error.
    Refuse(PathError),
}

impl View for WriteStep {
    type V = Step;

    open spec fn view(&self) -> Step {
        match *self {
            WriteStep::CreateDirs(dir) => Step::CreateDirs(path_bytes(dir)),
            WriteStep::CreateTemp(dir, prefix) => Step::CreateTemp(path_bytes(dir), prefix@),
            WriteStep::WriteTemp => Step::WriteTemp,
            WriteStep::FlushTemp => Step::FlushTemp,
            WriteStep::Rename(target) => Step::Rename(path_bytes(target)),
            WriteStep::FlushDir(dir) => Step::FlushDir(path_bytes(dir)),
            WriteStep::Refuse(error) => Step::Refuse(error),
        }
    }
}

/// A plan by the steps it consists of.
pub open spec fn steps(plan: Seq<WriteStep>) -> Seq<Step> {
    plan.map_values(|step: WriteStep| step@)
}

/// The steps that create directories.
pub open spec fn create_all(dirs: Seq<Seq<u8>>) -> Seq<Step> {
    dirs.map_values(|dir: Seq<u8>| Step::CreateDirs(dir))
}

/// The steps that put the content in place by way of a temporary file.
pub open spec fn put_in_place(temp_dir: Seq<u8>, target: Seq<u8>) -> Seq<Step> {
    seq![
        Step::CreateTemp(temp_dir, TEMP_PREFIX@),
        Step::WriteTemp,
        Step::FlushTemp,
        Step::Rename(target),
    ]
}

/// The steps that make the rename of a file in `dir` durable, where directories are flushed.
pub open spec fn make_durable(dir: Result<Seq<u8>, PathError>, flush_dirs: bool) -> Seq<Step> {
    if flush_dirs {
        match dir {
            Ok(d) => seq![Step::FlushDir(d)],
            Err(error) => seq![Step::Refuse(error)],
        }
    } else {
        Seq::empty()
    }
}

/// All steps of a write: directories first, then the content, then durability.
pub open spec fn write_steps(
    dirs: Seq<Seq<u8>>,
    temp_dir: Seq<u8>,
    target: Seq<u8>,
    dir: Result<Seq<u8>, PathError>,
    flush_dirs: bool,
) -> Seq<Step> {
    create_all(dirs) + put_in_place(temp_dir, target) + make_durable(dir, flush_dirs)
}

/// The directories that a staged write makes sure of: the staging directory, and the target's where
/// its path names one.
pub open spec fn staged_dirs(staging: Seq<u8>, parent: Option<Seq<u8>>) -> Seq<Seq<u8>> {
    match parent {
        Some(dir) => if dir.len() == 0 {
            seq![staging]
        } else {
            seq![staging, dir]
        },
        None => seq![staging],
    }
}

/// The plan of a write whose directories are there: `temp_dir` for the temporary file, `dir` for
/// the target.
fn write_via(
    plan: &mut Vec<WriteStep>,
    temp_dir: std::path::PathBuf,
    target: &std::path::PathBuf,
    dir: Result<std::path::PathBuf, PathError>,
    flush_dirs: bool,
)
    ensures
        steps(final(plan)@) == steps(old(plan)@) + put_in_place(
            path_bytes(temp_dir),
            path_bytes(*target),
        ) + make_durable(path_outcome(dir), flush_dirs),
{
    plan.push(WriteStep::CreateTemp(temp_dir, TEMP_PREFIX));
    plan.push(WriteStep::WriteTemp);
    plan.push(WriteStep::FlushTemp);
    plan.push(WriteStep::Rename(target.clone()));
    if flush_dirs {
        match dir {
            Ok(d) => plan.push(WriteStep::FlushDir(d)),
            Err(error) => plan.push(WriteStep::Refuse(error)),
        }
    }
    assert(steps(plan@) =~= steps(old(plan)@) + put_in_place(
        path_bytes(temp_dir),
        path_bytes(*target),
    ) + make_durable(path_outcome(dir), flush_dirs));
}

/// A plan renames to the path that was asked for.
proof fn lemma_renames(
    plan: Seq<WriteStep>,
    dirs: Seq<Seq<u8>>,
    temp_dir: Seq<u8>,
    path: std::path::PathBuf,
    dir: Result<Seq<u8>, PathError>,
    flush_dirs: bool,
)
    requires
        steps(plan) == write_steps(dirs, temp_dir, path_bytes(path), dir, flush_dirs),
    ensures
        forall|i: int|
            0 <= i < plan.len() ==> (#[trigger] plan[i] matches WriteStep::Rename(to) ==> path_bytes(
                to,
            ) == path_bytes(path)),
{
    law_steps_of_a_write(dirs, temp_dir, path_bytes(path), dir, flush_dirs);
    assert forall|i: int| 0 <= i < plan.len() implies (#[trigger] plan[i] matches WriteStep::Rename(
        to,
    ) ==> path_bytes(to) == path_bytes(path)) by {
        assert(steps(plan)[i] == plan[i]@);
        let all = write_steps(dirs, temp_dir, path_bytes(path), dir, flush_dirs);
        if i < dirs.len() {
            assert(all[i] == Step::CreateDirs(dirs[i]));
        }
    }
}

/// The steps of a write, in full: the directories are made, one after the other; then the temporary
/// file is made in its directory under a name with [`TEMP_PREFIX`], written, flushed, and renamed to
/// the target; and last, where directories are flushed, the target's is, or the path is refused if
/// it has none. There is no other step, so the one rename goes to the target.
pub proof fn law_steps_of_a_write(
    dirs: Seq<Seq<u8>>,
    temp_dir: Seq<u8>,
    target: Seq<u8>,
    dir: Result<Seq<u8>, PathError>,
    flush_dirs: bool,
)
    ensures
        ({
            let plan = write_steps(dirs, temp_dir, target, dir, flush_dirs);
            let n = dirs.len() as int;
            &&& plan.len() == if flush_dirs {
                n + 5
            } else {
                n + 4
            }
            &&& forall|i: int| 0 <= i < n ==> #[trigger] plan[i] == Step::CreateDirs(dirs[i])
            &&& plan[n] == Step::CreateTemp(temp_dir, TEMP_PREFIX@)
            &&& plan[n + 1] is WriteTemp
            &&& plan[n + 2] is FlushTemp
            &&& plan[n + 3] == Step::Rename(target)
            &&& flush_dirs ==> match dir {
                Ok(d) => plan[n + 4] == Step::FlushDir(d),
                Err(error) => plan[n + 4] == Step::Refuse(error),
            }
        }),
{
    let plan = write_steps(dirs, temp_dir, target, dir, flush_dirs);
    assert forall|i: int| 0 <= i < dirs.len() implies #[trigger] plan[i] == Step::CreateDirs(
        dirs[i],
    ) by {
        assert(create_all(dirs)[i] == Step::CreateDirs(dirs[i]));
    }
}

/// The plan that replaces the file at `path`, which has this parent, with the temporary file beside
/// it.
pub fn plan_beside(
    path: &std::path::PathBuf,
    parent: Option<std::path::PathBuf>,
    flush_dirs: bool,
) -> (res: Result<Vec<WriteStep>, PathError>)
    ensures
        match dir_of(some_path(parent)) {
            Ok(dir) => res matches Ok(plan) && steps(plan@) == write_steps(
                seq![dir],
                dir,
                path_bytes(*path),
                Ok(dir),
                flush_dirs,
            ),
            Err(error) => res == Err::<Vec<WriteStep>, PathError>(error),
        },
        res matches Ok(plan) ==> forall|i: int|
            0 <= i < plan@.len() ==> (#[trigger] plan@[i] matches WriteStep::Rename(to)
                ==> path_bytes(to) == path_bytes(*path)),
{
    match parent_dir(parent) {
        Ok(dir) => {
            let mut plan: Vec<WriteStep> = Vec::new();
            plan.push(WriteStep::CreateDirs(dir.clone()));
            assert(steps(plan@) =~= create_all(seq![path_bytes(dir)]));
            write_via(&mut plan, dir.clone(), path, Ok(dir), flush_dirs);
            proof {
                lemma_renames(
                    plan@,
                    seq![path_bytes(dir)],
                    path_bytes(dir),
                    *path,
                    Ok(path_bytes(dir)),
                    flush_dirs,
                );
            }
            Ok(plan)
        },
        Err(error) => Err(error),
    }
}

/// The plan that replaces the file at `path`, which has this parent, with the temporary file in
/// `staging`.
pub fn plan_staged(
    path: &std::path::PathBuf,
    parent: Option<std::path::PathBuf>,
    staging: &std::path::PathBuf,
    flush_dirs: bool,
) -> (plan: Vec<WriteStep>)
    ensures
        steps(plan@) == write_steps(
            staged_dirs(path_bytes(*staging), some_path(parent)),
            path_bytes(*staging),
            path_bytes(*path),
            dir_of(some_path(parent)),
            flush_dirs,
        ),
        forall|i: int|
            0 <= i < plan@.len() ==> (#[trigger] plan@[i] matches WriteStep::Rename(to)
                ==> path_bytes(to) == path_bytes(*path)),
{
    let mut plan: Vec<WriteStep> = Vec::new();
    plan.push(WriteStep::CreateDirs(staging.clone()));
    match &parent {
        Some(dir) => {
            if !is_empty(dir) {
                plan.push(WriteStep::CreateDirs(dir.clone()));
            }
        },
        None => {},
    }
    assert(steps(plan@) =~= create_all(staged_dirs(path_bytes(*staging), some_path(parent))));
    write_via(&mut plan, staging.clone(), path, parent_dir(parent), flush_dirs);
    proof {
        lemma_renames(
            plan@,
            staged_dirs(path_bytes(*staging), some_path(parent)),
            path_bytes(*staging),
            *path,
            dir_of(some_path(parent)),
            flush_dirs,
        );
    }
    plan
}

/// The plan that replaces the file at `path`, with the temporary file beside it. A path without a
/// parent is refused before anything is done. Directories are flushed where `flush_dirs` says so.
pub fn plan_write(path: &std::path::PathBuf, flush_dirs: bool) -> (res: Result<
    Vec<WriteStep>,
    PathError,
>)
    ensures
        exists|parent: Option<Seq<u8>>| #[trigger]
            parent_found(path_bytes(*path), parent) && match dir_of(parent) {
                Ok(dir) => res matches Ok(plan) && steps(plan@) == write_steps(
                    seq![dir],
                    dir,
                    path_bytes(*path),
                    Ok(dir),
                    flush_dirs,
                ),
                Err(error) => res == Err::<Vec<WriteStep>, PathError>(error),
            },
        parentless(path_bytes(*path)) ==> res == Err::<Vec<WriteStep>, PathError>(
            PathError::NoParent,
        ),
        bare_name(path_bytes(*path)) ==> (res matches Ok(plan) && steps(plan@) == write_steps(
            seq![current_dir()],
            current_dir(),
            path_bytes(*path),
            Ok(current_dir()),
            flush_dirs,
        )),
{
    let parent = lexical_parent(path);
    assert(parent_found(path_bytes(*path), some_path(parent)));
    plan_beside(path, parent, flush_dirs)
}

/// The plan that replaces the file at `path`, with the temporary file in `staging` instead of
/// beside the target. `staging` has to be on the same volume as `path`: the rename fails otherwise.
pub fn plan_staged_write(
    path: &std::path::PathBuf,
    staging: &std::path::PathBuf,
    flush_dirs: bool,
) -> (plan: Vec<WriteStep>)
    ensures
        exists|parent: Option<Seq<u8>>| #[trigger]
            parent_found(path_bytes(*path), parent) && steps(plan@) == write_steps(
                staged_dirs(path_bytes(*staging), parent),
                path_bytes(*staging),
                path_bytes(*path),
                dir_of(parent),
                flush_dirs,
            ),
        parentless(path_bytes(*path)) ==> steps(plan@) == write_steps(
            seq![path_bytes(*staging)],
            path_bytes(*staging),
            path_bytes(*path),
            Err(PathError::NoParent),
            flush_dirs,
        ),
        bare_name(path_bytes(*path)) ==> steps(plan@) == write_steps(
            seq![path_bytes(*staging)],
            path_bytes(*staging),
            path_bytes(*path),
            Ok(current_dir()),
            flush_dirs,
        ),
{
    let parent = lexical_parent(path);
    assert(parent_found(path_bytes(*path), some_path(parent)));
    plan_staged(path, parent, staging, flush_dirs)
}

/// What carrying out a plan does next. `E` is the error of a step.
#[derive(Debug)]
pub enum WriteTurn<E> {
    /// Take the step at this place of the plan.
    Take(usize),
    /// Every step was taken.
    Finished,
    /// Remove the temporary file, and fail with this error.
    Abandon(E),
    /// Fail with this error; there is no temporary file.
    Fail(E),
}

/// That the temporary file is there, and has not become the target, while this step is taken.
pub open spec fn holds_temp(step: Step) -> bool {
    step is WriteTemp || step is FlushTemp || step is Rename
}

/// What carrying out a plan does once the step at `at` ended in `result`.
pub open spec fn write_turn<E>(plan: Seq<Step>, at: int, result: Result<(), E>) -> WriteTurn<E> {
    match result {
        Ok(_) => if at + 1 < plan.len() {
            WriteTurn::Take((at + 1) as usize)
        } else {
            WriteTurn::Finished
        },
        Err(error) => if 0 <= at < plan.len() && holds_temp(plan[at]) {
            WriteTurn::Abandon(error)
        } else {
            WriteTurn::Fail(error)
        },
    }
}

/// What carrying out a plan does first.
pub open spec fn write_start<E>(plan: Seq<Step>) -> WriteTurn<E> {
    if plan.len() > 0 {
        WriteTurn::Take(0)
    } else {
        WriteTurn::Finished
    }
}

/// What carrying out a plan does first.
pub fn write_first<E>(plan: &Vec<WriteStep>) -> (turn: WriteTurn<E>)
    ensures
        turn == write_start::<E>(steps(plan@)),
{
    if plan.len() > 0 {
        WriteTurn::Take(0)
    } else {
        WriteTurn::Finished
    }
}

/// What carrying out a plan does once the step at `at` ended in `result`: the first step that fails
/// ends the write with its error, and the temporary file, if there is one, is removed.
pub fn write_next<E>(plan: &Vec<WriteStep>, at: usize, result: Result<(), E>) -> (turn: WriteTurn<
    E,
>)
    ensures
        turn == write_turn(steps(plan@), at as int, result),
{
    match result {
        Ok(_) => if at < plan.len() && at + 1 < plan.len() {
            WriteTurn::Take(at + 1)
        } else {
            WriteTurn::Finished
        },
        Err(error) => {
            if at >= plan.len() {
                return WriteTurn::Fail(error);
            }
            assert(steps(plan@)[at as int] == plan@[at as int]@);
            match &plan[at] {
                WriteStep::WriteTemp | WriteStep::FlushTemp | WriteStep::Rename(_) => {
                    WriteTurn::Abandon(error)
                },
                _ => WriteTurn::Fail(error),
            }
        },
    }
}

/// Where a write stands once its steps, first to last, ended in `results`; the results that come
/// after its end are passed over.
pub open spec fn write_run<E>(plan: Seq<Step>, results: Seq<Result<(), E>>) -> WriteTurn<E>
    decreases results.len(),
{
    if results.len() == 0 {
        write_start(plan)
    } else {
        match write_run(plan, results.drop_last()) {
            WriteTurn::Take(at) => write_turn(plan, at as int, results.last()),
            ended => ended,
        }
    }
}

/// That `results` are those of the steps that a write took, so that none comes after its end.
pub open spec fn write_history<E>(plan: Seq<Step>, results: Seq<Result<(), E>>) -> bool
    decreases results.len(),
{
    results.len() == 0 || (write_history(plan, results.drop_last()) && write_run(
        plan,
        results.drop_last(),
    ) is Take)
}

/// The steps of a plan are taken in order, each once, and none after the first that fails. The
/// write succeeds exactly when every step did; it fails exactly when a step did, with the error of
/// that step, and then the temporary file is removed if there is one.
pub proof fn law_first_failure_ends_the_write<E>(plan: Seq<Step>, results: Seq<Result<(), E>>)
    requires
        plan.len() <= usize::MAX,
        write_history(plan, results),
    ensures
        results.len() <= plan.len(),
        forall|i: int| 0 <= i < results.len() - 1 ==> (#[trigger] results[i]) is Ok,
        write_run(plan, results) == WriteTurn::<E>::Finished <==> results.len() == plan.len() && (
        results.len() > 0 ==> results.last() is Ok),
        results.len() > 0 ==> (results.last() matches Err(error) ==> write_run(plan, results)
            == if holds_temp(plan[results.len() - 1]) {
            WriteTurn::Abandon(error)
        } else {
            WriteTurn::Fail(error)
        }),
        results.len() < plan.len() && (results.len() > 0 ==> results.last() is Ok) ==> write_run(
            plan,
            results,
        ) == WriteTurn::<E>::Take(results.len() as usize),
    decreases results.len(),
{
    if results.len() > 0 {
        let earlier = results.drop_last();
        law_first_failure_ends_the_write(plan, earlier);
        assert(forall|i: int|
            0 <= i < results.len() - 1 ==> #[trigger] results[i] == earlier[i]);
        if earlier.len() > 0 {
            assert(earlier.last() == results[results.len() - 2]);
        }
    }
}

/// That a step may create a file of this name in `place`.
pub open spec fn may_create(step: Step, place: Seq<u8>, name: Seq<char>) -> bool {
    step matches Step::CreateTemp(dir, prefix) && dir == place && prefix.is_prefix_of(name)
}

/// A write creates its one temporary file in the directory meant for it and nowhere else, so a
/// staged write puts none in the target's folder; and its name carries [`TEMP_PREFIX`].
pub proof fn law_temp_file_is_only_in_its_directory(
    dirs: Seq<Seq<u8>>,
    temp_dir: Seq<u8>,
    target: Seq<u8>,
    dir: Result<Seq<u8>, PathError>,
    flush_dirs: bool,
    i: int,
    place: Seq<u8>,
    name: Seq<char>,
)
    requires
        0 <= i < write_steps(dirs, temp_dir, target, dir, flush_dirs).len(),
    ensures
        may_create(write_steps(dirs, temp_dir, target, dir, flush_dirs)[i], place, name) <==> i
            == dirs.len() && place == temp_dir && TEMP_PREFIX@.is_prefix_of(name),
{
    let plan = write_steps(dirs, temp_dir, target, dir, flush_dirs);
    if i < dirs.len() {
        assert(plan[i] == Step::CreateDirs(dirs[i]));
    }
}

/// The directory of a file is the parent of its path, or the current directory where the path names
/// none; a path without a parent has none. A staged write makes the staging directory first, and
/// then the target's where its path names one.
pub proof fn law_directories_of_a_write(parent: Seq<u8>, staging: Seq<u8>)
    ensures
        parent.len() > 0 ==> dir_of(Some(parent)) == Ok::<Seq<u8>, PathError>(parent),
        parent.len() == 0 ==> dir_of(Some(parent)) == Ok::<Seq<u8>, PathError>(seq![0x2eu8]),
        dir_of(None) == Err::<Seq<u8>, PathError>(PathError::NoParent),
        parent.len() > 0 ==> staged_dirs(staging, Some(parent)) == seq![staging, parent],
        parent.len() == 0 ==> staged_dirs(staging, Some(parent)) == seq![staging],
        staged_dirs(staging, None) == seq![staging],
        current_dir() == seq![0x2eu8],
{
}

/// A bare name is one that holds neither a slash, nor a backslash, nor a colon; the empty path and
/// the slash alone have no parent.
pub proof fn law_bare_names_and_roots(path: Seq<u8>)
    ensures
        bare_name(path) <==> path.len() > 0 && !path.contains(0x2f) && !path.contains(0x5c)
            && !path.contains(0x3a),
        parentless(path) <==> path.len() == 0 || (path.len() == 1 && path[0] == 0x2f),
{
    if bare_name(path) {
        assert forall|byte: u8| byte == 0x2f || byte == 0x5c || byte == 0x3a implies !path.contains(
            byte,
        ) by {
            if path.contains(byte) {
                let i = choose|i: int| 0 <= i < path.len() && path[i] == byte;
                assert(path[i] != 0x2f && path[i] != 0x5c && path[i] != 0x3a);
            }
        }
    } else if path.len() > 0 {
        let i = choose|i: int|
            0 <= i < path.len() && (#[trigger] path[i] == 0x2f || path[i] == 0x5c || path[i] == 0x3a);
        assert(path.contains(path[i]));
    }
    if path.len() == 1 && path[0] == 0x2f {
        assert(path =~= seq![0x2fu8]);
    }
}

/// A step is told by what it does and where: by the bytes of its path, the text of its prefix, and
/// its error.
pub proof fn law_steps_are_told_by_what_they_hold(
    step: WriteStep,
    place: Seq<u8>,
    name: Seq<char>,
    error: PathError,
)
    ensures
        step@ == Step::CreateDirs(place) <==> (step matches WriteStep::CreateDirs(dir) && path_bytes(
            dir,
        ) == place),
        step@ == Step::CreateTemp(place, name) <==> (step matches WriteStep::CreateTemp(dir, prefix)
            && path_bytes(dir) == place && prefix@ == name),
        step@ is WriteTemp <==> step is WriteTemp,
        step@ is FlushTemp <==> step is FlushTemp,
        step@ == Step::Rename(place) <==> (step matches WriteStep::Rename(to) && path_bytes(to)
            == place),
        step@ == Step::FlushDir(place) <==> (step matches WriteStep::FlushDir(dir) && path_bytes(dir)
            == place),
        step@ == Step::Refuse(error) <==> step == WriteStep::Refuse(error),
{
}

/// A plan has the steps it consists of, each at its place.
pub proof fn law_plans_are_told_by_their_steps(plan: Seq<WriteStep>, i: int)
    requires
        0 <= i < plan.len(),
    ensures
        steps(plan).len() == plan.len(),
        steps(plan)[i] == plan[i]@,
{
}

/// A path, and the lack of one, are told by the bytes.
pub proof fn law_paths_are_told_by_their_bytes(
    path: Option<std::path::PathBuf>,
    res: Result<std::path::PathBuf, PathError>,
    bytes: Seq<u8>,
    error: PathError,
)
    ensures
        some_path(path) == Some(bytes) <==> (path matches Some(p) && path_bytes(p) == bytes),
        some_path(path) is None <==> path is None,
        path_outcome(res) == Ok::<Seq<u8>, PathError>(bytes) <==> (res matches Ok(p) && path_bytes(p)
            == bytes),
        path_outcome(res) == Err::<Seq<u8>, PathError>(error) <==> res == Err::<
            std::path::PathBuf,
            PathError,
        >(error),
{
}

/// A step that fails while the temporary file is there, to be written, flushed or renamed, has it
/// removed; a step before it is made, or after it became the target, has nothing to remove.
pub proof fn law_temp_file_is_removed_where_it_is<E>(plan: Seq<Step>, at: int, error: E)
    requires
        0 <= at < plan.len(),
    ensures
        plan[at] is WriteTemp || plan[at] is FlushTemp || plan[at] is Rename ==> write_turn(
            plan,
            at,
            Err::<(), E>(error),
        ) == WriteTurn::Abandon(error),
        plan[at] is CreateDirs || plan[at] is CreateTemp || plan[at] is FlushDir
            || plan[at] is Refuse ==> write_turn(plan, at, Err::<(), E>(error)) == WriteTurn::Fail(
            error,
        ),
{
}

/// Every step that is taken can end in any way, and the write then does what [`write_next`] does.
pub proof fn law_write_goes_on<E>(
    plan: Seq<Step>,
    results: Seq<Result<(), E>>,
    at: usize,
    result: Result<(), E>,
)
    requires
        write_history(plan, results),
        write_run(plan, results) == WriteTurn::<E>::Take(at),
    ensures
        write_history(plan, results.push(result)),
        write_run(plan, results.push(result)) == write_turn(plan, at as int, result),
        write_run(plan, Seq::<Result<(), E>>::empty()) == write_start::<E>(plan),
        plan.len() > 0 ==> write_start::<E>(plan) == WriteTurn::<E>::Take(0),
        plan.len() == 0 ==> write_start::<E>(plan) is Finished,
{
    assert(results.push(result).drop_last() =~= results);
}

} // verus!
