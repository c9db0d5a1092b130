//! The sweep of a staging directory: which of its files are leftovers of writes that never
//! finished.

use vstd::prelude::*;

use crate::files::TEMP_PREFIX;

verus! {

/// An entry of a directory.
#[derive(Debug, Clone)]
pub struct DirEntry {
    /// The file name, with what is not valid Unicode replaced.
    pub name: String,
    /// Whether it is a regular file; `None` where that could not be found out.
    pub is_file: Option<bool>,
}

/// Why a directory could not be listed.
#[derive(Debug)]
pub enum ListError<E> {
    /// It does not exist.
    NotFound,
    /// Another error.
    Other(E),
}

/// That a name is one that a write gives to its temporary files.
pub open spec fn temp_name(name: Seq<char>) -> bool {
    TEMP_PREFIX@.is_prefix_of(name)
}

/// That an entry is a leftover: a regular file with the name of a temporary file.
pub open spec fn leftover(entry: DirEntry) -> bool {
    temp_name(entry.name@) && entry.is_file == Some(true)
}

/// That `indices` are the places of the leftovers among `entries`, each once and in order.
pub open spec fn leftover_places(entries: Seq<DirEntry>, indices: Seq<usize>) -> bool {
    &&& forall|j: int|
        0 <= j < indices.len() ==> #[trigger] indices[j] < entries.len() && leftover(
            entries[indices[j] as int],
        )
    &&& forall|j: int, k: int| 0 <= j < k < indices.len() ==> indices[j] < indices[k]
    &&& forall|i: usize|
        i < entries.len() && leftover(#[trigger] entries[i as int]) ==> indices.contains(i)
}

/// `str::starts_with` with a text for its pattern. The contract claims that the answer is whether
/// the characters of the text come first.
#[verifier::external_body]
fn starts_with(name: &str, prefix: &str) -> (starts: bool)
    ensures
        starts == prefix@.is_prefix_of(name@),
{
    name.starts_with(prefix)
}

/// Whether an entry is a leftover.
pub fn is_leftover(entry: &DirEntry) -> (is: bool)
    ensures
        is == leftover(*entry),
        is == (TEMP_PREFIX@.is_prefix_of(entry.name@) && entry.is_file == Some(true)),
{
    let ours = starts_with(entry.name.as_str(), TEMP_PREFIX);
    let is_file = match entry.is_file {
        Some(file) => file,
        None => false,
    };
    ours && is_file
}

/// The places of the leftovers among `entries`.
fn leftovers(entries: &Vec<DirEntry>) -> (indices: Vec<usize>)
    ensures
        leftover_places(entries@, indices@),
{
    let mut indices: Vec<usize> = Vec::new();
    let mut i: usize = 0;
    while i < entries.len()
        invariant
            i <= entries.len(),
            forall|j: int|
                0 <= j < indices.len() ==> #[trigger] indices@[j] < i && leftover(
                    entries@[indices@[j] as int],
                ),
            forall|j: int, k: int| 0 <= j < k < indices.len() ==> indices@[j] < indices@[k],
            forall|n: usize|
                n < i && leftover(#[trigger] entries@[n as int]) ==> indices@.contains(n),
        decreases entries.len() - i,
    {
        if is_leftover(&entries[i]) {
            let ghost before = indices@;
            indices.push(i);
            assert forall|n: usize|
                n < i + 1 && leftover(#[trigger] entries@[n as int]) implies indices@.contains(
                n,
            ) by {
                if n == i {
                    assert(indices@[before.len() as int] == i);
                } else {
                    let j = choose|j: int| 0 <= j < before.len() && before[j] == n;
                    assert(indices@[j] == n);
                }
            }
        }
        i = i + 1;
    }
    indices
}

/// Which entries of a staging directory a sweep removes, given its listing. A directory that does
/// not exist has none; another error ends the sweep.
pub fn plan_sweep<E>(listing: Result<Vec<DirEntry>, ListError<E>>) -> (res: Result<
    Vec<usize>,
    E,
>)
    ensures
        match listing {
            Ok(entries) => res matches Ok(indices) && leftover_places(entries@, indices@),
            Err(ListError::NotFound) => res matches Ok(indices) && indices@.len() == 0,
            Err(ListError::Other(error)) => res == Err::<Vec<usize>, E>(error),
        },
{
    match listing {
        Ok(entries) => Ok(leftovers(&entries)),
        Err(ListError::NotFound) => Ok(Vec::new()),
        Err(ListError::Other(error)) => Err(error),
    }
}

/// How many removals succeeded. One that did not, for example of a file that another running
/// instance holds open, is passed over.
pub fn count_removed(removals: &Vec<bool>) -> (count: usize)
    ensures
        count == removals@.filter(|removed: bool| removed).len(),
        count <= removals.len(),
{
    let ghost keep = |removed: bool| removed;
    let mut count: usize = 0;
    let mut i: usize = 0;
    while i < removals.len()
        invariant
            i <= removals.len(),
            count <= i,
            keep == |removed: bool| removed,
            count == removals@.take(i as int).filter(keep).len(),
        decreases removals.len() - i,
    {
        proof {
            reveal(Seq::filter);
            assert(removals@.take(i + 1).drop_last() =~= removals@.take(i as int));
            assert(removals@.take(i + 1).last() == removals@[i as int]);
        }
        if removals[i] {
            count = count + 1;
        }
        i = i + 1;
    }
    assert(removals@.take(i as int) =~= removals@);
    count
}

/// A sweep finds every temporary file of a write that never finished, whatever follows the prefix
/// in its name.
pub proof fn law_temp_files_are_leftovers(rest: Seq<char>, entry: DirEntry)
    requires
        entry.name@ == TEMP_PREFIX@ + rest,
        entry.is_file == Some(true),
    ensures
        leftover(entry),
{
    assert((TEMP_PREFIX@ + rest).take(TEMP_PREFIX@.len() as int) =~= TEMP_PREFIX@);
}

/// A sweep never removes a file without the prefix, nor anything that is not a regular file.
pub proof fn law_sweep_spares_what_is_not_a_leftover(
    entries: Seq<DirEntry>,
    indices: Seq<usize>,
    i: usize,
)
    requires
        leftover_places(entries, indices),
        i < entries.len(),
        !temp_name(entries[i as int].name@) || entries[i as int].is_file != Some(true),
    ensures
        !indices.contains(i),
{
}

/// Whatever a write can leave behind, a sweep of the directory meant for its temporary files finds:
/// a regular file that one of its steps may have created is in that directory, and is a leftover.
pub proof fn law_sweep_finds_what_a_write_leaves(
    dirs: Seq<Seq<u8>>,
    temp_dir: Seq<u8>,
    target: Seq<u8>,
    dir: Result<Seq<u8>, crate::files::PathError>,
    flush_dirs: bool,
    i: int,
    place: Seq<u8>,
    entry: DirEntry,
)
    requires
        0 <= i < crate::files::write_steps(dirs, temp_dir, target, dir, flush_dirs).len(),
        crate::files::may_create(
            crate::files::write_steps(dirs, temp_dir, target, dir, flush_dirs)[i],
            place,
            entry.name@,
        ),
        entry.is_file == Some(true),
    ensures
        place == temp_dir,
        leftover(entry),
{
    crate::files::law_temp_file_is_only_in_its_directory(
        dirs,
        temp_dir,
        target,
        dir,
        flush_dirs,
        i,
        place,
        entry.name@,
    );
}

/// That a sweep of `entries`, which tried to remove those at `indices` with the success that
/// `removals` tells, leaves `rest`: the entries that it did not remove.
pub open spec fn swept(
    entries: Seq<DirEntry>,
    indices: Seq<usize>,
    removals: Seq<bool>,
    rest: Seq<DirEntry>,
) -> bool {
    forall|entry: DirEntry| #[trigger]
        rest.contains(entry) <==> exists|i: int|
            0 <= i < entries.len() && #[trigger] entries[i] == entry && !removed_at(
                indices,
                removals,
                i,
            )
}

/// That a sweep removed the entry at `i`.
pub open spec fn removed_at(indices: Seq<usize>, removals: Seq<bool>, i: int) -> bool {
    exists|j: int|
        0 <= j < indices.len() && j < removals.len() && #[trigger] indices[j] == i && removals[j]
}

/// That removing succeeds exactly for the files whose names `removable` accepts.
pub open spec fn removed_as(
    entries: Seq<DirEntry>,
    indices: Seq<usize>,
    removals: Seq<bool>,
    removable: spec_fn(Seq<char>) -> bool,
) -> bool {
    &&& removals.len() == indices.len()
    &&& forall|j: int|
        0 <= j < indices.len() ==> (#[trigger] removals[j] <==> removable(
            entries[indices[j] as int].name@,
        ))
}

/// A sweep that comes right after another one removes nothing and counts none: what the first could
/// not remove, the second cannot either, and nothing else is left over.
pub proof fn law_second_sweep_removes_nothing(
    entries: Seq<DirEntry>,
    indices: Seq<usize>,
    removals: Seq<bool>,
    rest: Seq<DirEntry>,
    again: Seq<usize>,
    removals_again: Seq<bool>,
    removable: spec_fn(Seq<char>) -> bool,
)
    requires
        entries.len() <= usize::MAX,
        leftover_places(entries, indices),
        removed_as(entries, indices, removals, removable),
        swept(entries, indices, removals, rest),
        leftover_places(rest, again),
        removed_as(rest, again, removals_again, removable),
    ensures
        removals_again.filter(|removed: bool| removed).len() == 0,
        swept(rest, again, removals_again, rest),
{
    assert forall|j: int| 0 <= j < again.len() implies !(#[trigger] removals_again[j]) by {
        if removals_again[j] {
            let entry = rest[again[j] as int];
            assert(rest.contains(entry));
            assert(leftover(entry));
            let i = choose|i: int|
                0 <= i < entries.len() && #[trigger] entries[i] == entry && !removed_at(
                    indices,
                    removals,
                    i,
                );
            assert(leftover(entries[(i as usize) as int]));
            assert(indices.contains(i as usize));
            let k = choose|k: int| 0 <= k < indices.len() && indices[k] == i as usize;
            assert(removals[k]);
            assert(removed_at(indices, removals, i));
        }
    }
    lemma_nothing_removed(removals_again);
    assert forall|entry: DirEntry| #[trigger] rest.contains(entry) implies exists|i: int|
        0 <= i < rest.len() && #[trigger] rest[i] == entry && !removed_at(
            again,
            removals_again,
            i,
        ) by {
        let i = choose|i: int| 0 <= i < rest.len() && rest[i] == entry;
        assert(rest[i] == entry && !removed_at(again, removals_again, i));
    }
}

/// Where no removal succeeded, none is counted.
proof fn lemma_nothing_removed(removals: Seq<bool>)
    requires
        forall|j: int| 0 <= j < removals.len() ==> !(#[trigger] removals[j]),
    ensures
        removals.filter(|removed: bool| removed).len() == 0,
    decreases removals.len(),
{
    reveal(Seq::filter);
    if removals.len() > 0 {
        assert forall|j: int| 0 <= j < removals.len() - 1 implies !(
        #[trigger] removals.drop_last()[j]) by {
            assert(removals.drop_last()[j] == removals[j]);
        }
        lemma_nothing_removed(removals.drop_last());
        assert(!removals[removals.len() - 1]);
    }
}

/// A sweep removes exactly the regular files whose names begin with [`TEMP_PREFIX`], each once and
/// in the order of the listing, whatever else the directory holds.
pub proof fn law_sweep_in_full(entries: Seq<DirEntry>, indices: Seq<usize>, i: usize, j: int, k: int)
    requires
        leftover_places(entries, indices),
    ensures
        indices.contains(i) <==> i < entries.len() && TEMP_PREFIX@.is_prefix_of(
            entries[i as int].name@,
        ) && entries[i as int].is_file == Some(true),
        0 <= j < k < indices.len() ==> indices[j] < indices[k],
{
    if indices.contains(i) {
        let at = choose|at: int| 0 <= at < indices.len() && indices[at] == i;
        assert(indices[at] < entries.len());
    }
    if i < entries.len() && TEMP_PREFIX@.is_prefix_of(entries[i as int].name@)
        && entries[i as int].is_file == Some(true) {
        assert(leftover(entries[i as int]));
    }
}

} // verus!
