//! Plans of file writes, and the sweep of a staging directory.

use std::collections::{BTreeMap, BTreeSet};
use std::path::{Path, PathBuf};

use tauri_kit::files::{
    parent_dir, parent_of, plan_beside, plan_staged, plan_staged_write, plan_write, write_first,
    write_next, PathError, WriteStep, WriteTurn, TEMP_PREFIX,
};
use tauri_kit::sweep::{count_removed, is_leftover, plan_sweep, DirEntry, ListError};

/// A plan as text, for comparison.
fn shown(plan: &Vec<WriteStep>) -> Vec<String> {
    plan.iter()
        .map(|step| match step {
            WriteStep::CreateDirs(dir) => format!("dirs {}", dir.display()),
            WriteStep::CreateTemp(dir, prefix) => {
                assert_eq!(*prefix, TEMP_PREFIX);
                format!("temp {}", dir.display())
            }
            WriteStep::WriteTemp => "write".to_string(),
            WriteStep::FlushTemp => "flush".to_string(),
            WriteStep::Rename(path) => format!("rename {}", path.display()),
            WriteStep::FlushDir(dir) => format!("flush {}", dir.display()),
            WriteStep::Refuse(PathError::NoParent) => "refuse".to_string(),
        })
        .collect()
}

fn entry(name: &str, is_file: Option<bool>) -> DirEntry {
    DirEntry { name: name.to_string(), is_file }
}

#[test]
fn a_bare_file_name_writes_into_the_current_directory() {
    assert_eq!(parent_of(&PathBuf::from("a.txt")).unwrap(), PathBuf::from("."));
}

#[test]
fn a_file_in_a_folder_is_written_into_that_folder() {
    assert_eq!(parent_of(&PathBuf::from("x/y/a.txt")).unwrap(), PathBuf::from("x/y"));
    assert_eq!(parent_of(&PathBuf::from("/a.txt")).unwrap(), PathBuf::from("/"));
    assert_eq!(parent_dir(Some(PathBuf::from(""))).unwrap(), PathBuf::from("."));
    assert_eq!(parent_dir(Some(PathBuf::from("d"))).unwrap(), PathBuf::from("d"));
}

#[test]
fn a_path_without_a_parent_is_refused() {
    assert_eq!(parent_of(&PathBuf::from("")), Err(PathError::NoParent));
    assert_eq!(parent_of(&PathBuf::from("/")), Err(PathError::NoParent));
    assert_eq!(parent_dir(None), Err(PathError::NoParent));
    assert_eq!(plan_write(&PathBuf::from("/"), true).unwrap_err(), PathError::NoParent);
}

#[test]
fn a_write_flushes_before_it_renames() {
    let plan = plan_write(&PathBuf::from("x/y/a.txt"), true).unwrap();
    assert_eq!(
        shown(&plan),
        vec!["dirs x/y", "temp x/y", "write", "flush", "rename x/y/a.txt", "flush x/y"]
    );
}

#[test]
fn a_write_beside_a_bare_name_uses_the_current_directory() {
    let plan = plan_write(&PathBuf::from("a.txt"), false).unwrap();
    assert_eq!(shown(&plan), vec!["dirs .", "temp .", "write", "flush", "rename a.txt"]);
    let plan = plan_beside(&PathBuf::from("a.txt"), Some(PathBuf::from("")), true).unwrap();
    assert_eq!(shown(&plan)[5], "flush .");
}

/// A simulated volume: directories, and files by their paths.
#[derive(Default)]
struct Volume {
    dirs: BTreeSet<PathBuf>,
    files: BTreeMap<PathBuf, String>,
    temp: Option<PathBuf>,
}

impl Volume {
    /// The names of the files in a directory.
    fn names(&self, dir: &Path) -> Vec<String> {
        self.files
            .keys()
            .filter(|path| path.parent() == Some(dir))
            .map(|path| path.file_name().unwrap().to_str().unwrap().to_string())
            .collect()
    }

    /// Takes one step of a plan.
    fn take(&mut self, step: &WriteStep, content: &str) {
        match step {
            WriteStep::CreateDirs(dir) => {
                for ancestor in dir.ancestors() {
                    self.dirs.insert(ancestor.to_path_buf());
                }
            }
            WriteStep::CreateTemp(dir, prefix) => {
                assert!(self.dirs.contains(dir));
                let path = dir.join(format!("{prefix}x7"));
                self.files.insert(path.clone(), String::new());
                self.temp = Some(path);
            }
            WriteStep::WriteTemp => {
                let path = self.temp.clone().unwrap();
                self.files.insert(path, content.to_string());
            }
            WriteStep::FlushTemp => assert!(self.temp.is_some()),
            WriteStep::Rename(target) => {
                let body = self.files.remove(&self.temp.take().unwrap()).unwrap();
                self.files.insert(target.clone(), body);
            }
            WriteStep::FlushDir(dir) => assert!(self.dirs.contains(dir)),
            WriteStep::Refuse(_) => panic!("refused"),
        }
    }

    /// Carries out a plan in which one step fails, if any, with its place as the error.
    fn carry_out(
        &mut self,
        plan: &Vec<WriteStep>,
        content: &str,
        failing: Option<usize>,
    ) -> Result<(), usize> {
        let mut turn: WriteTurn<usize> = write_first(plan);
        loop {
            match turn {
                WriteTurn::Take(at) => {
                    let result = if Some(at) == failing {
                        Err(at)
                    } else {
                        self.take(&plan[at], content);
                        Ok(())
                    };
                    turn = write_next(plan, at, result);
                }
                WriteTurn::Finished => return Ok(()),
                WriteTurn::Abandon(error) => {
                    self.files.remove(&self.temp.take().unwrap());
                    return Err(error);
                }
                WriteTurn::Fail(error) => return Err(error),
            }
        }
    }
}

#[test]
fn replaces_existing_content() {
    let mut volume = Volume::default();
    let f = PathBuf::from("d/a.txt");
    volume.files.insert(f.clone(), "old".to_string());
    let plan = plan_write(&f, true).unwrap();
    assert_eq!(volume.carry_out(&plan, "new", None), Ok(()));
    assert_eq!(volume.files[&f], "new");
}

#[test]
fn creates_the_file_and_missing_parents() {
    let mut volume = Volume::default();
    let f = PathBuf::from("d/x/y/a.txt");
    let plan = plan_write(&f, true).unwrap();
    assert_eq!(volume.carry_out(&plan, "hi", None), Ok(()));
    assert_eq!(volume.files[&f], "hi");
}

#[test]
fn leaves_nothing_but_the_target_beside_it() {
    let mut volume = Volume::default();
    let f = PathBuf::from("d/a.txt");
    let plan = plan_write(&f, true).unwrap();
    volume.carry_out(&plan, "one", None).unwrap();
    volume.carry_out(&plan, "two", None).unwrap();
    assert_eq!(volume.names(Path::new("d")), vec!["a.txt"]);
    assert_eq!(volume.files[&f], "two");
}

#[test]
fn a_failed_write_leaves_the_target_and_no_temp_file() {
    let f = PathBuf::from("d/a.txt");
    let plan = plan_write(&f, true).unwrap();
    // Every step up to the rename, and the flush of the folder after it.
    for failing in 0..plan.len() {
        let mut volume = Volume::default();
        volume.files.insert(f.clone(), "old".to_string());
        assert_eq!(volume.carry_out(&plan, "new", Some(failing)), Err(failing));
        assert_eq!(volume.names(Path::new("d")), vec!["a.txt"]);
        let renamed = failing == plan.len() - 1;
        assert_eq!(volume.files[&f], if renamed { "new" } else { "old" });
    }
}

#[test]
fn the_first_failure_ends_the_write() {
    let plan = plan_write(&PathBuf::from("a.txt"), true).unwrap();
    let turn: WriteTurn<u8> = write_first(&plan);
    assert!(matches!(turn, WriteTurn::Take(0)));
    assert!(matches!(write_next::<u8>(&plan, 0, Ok(())), WriteTurn::Take(1)));
    assert!(matches!(write_next::<u8>(&plan, 5, Ok(())), WriteTurn::Finished));
    assert!(matches!(write_next(&plan, 0, Err(7u8)), WriteTurn::Fail(7)));
    assert!(matches!(write_next(&plan, 1, Err(7u8)), WriteTurn::Fail(7)));
    assert!(matches!(write_next(&plan, 2, Err(7u8)), WriteTurn::Abandon(7)));
    assert!(matches!(write_next(&plan, 3, Err(7u8)), WriteTurn::Abandon(7)));
    assert!(matches!(write_next(&plan, 4, Err(7u8)), WriteTurn::Abandon(7)));
    assert!(matches!(write_next(&plan, 5, Err(7u8)), WriteTurn::Fail(7)));
    let empty: WriteTurn<u8> = write_first(&Vec::new());
    assert!(matches!(empty, WriteTurn::Finished));
}

#[test]
fn staged_write_puts_no_temp_file_in_the_target_folder() {
    let f = PathBuf::from("content/note.md");
    let plan = plan_staged_write(&f, &PathBuf::from("staging"), true);
    assert_eq!(
        shown(&plan),
        vec![
            "dirs staging",
            "dirs content",
            "temp staging",
            "write",
            "flush",
            "rename content/note.md",
            "flush content"
        ]
    );
    let mut volume = Volume::default();
    volume.carry_out(&plan, "body", None).unwrap();
    assert_eq!(volume.files[&f], "body");
    assert_eq!(volume.names(Path::new("content")), vec!["note.md"]);
    assert!(volume.names(Path::new("staging")).is_empty(), "the temp file was renamed away");
}

#[test]
fn a_sweep_finds_what_a_write_left_behind() {
    let plan = plan_staged_write(&PathBuf::from("c/note.md"), &PathBuf::from("s"), true);
    let mut volume = Volume::default();
    // The write is cut short before its rename, and nobody cleans up.
    for step in plan.iter().take(5) {
        volume.take(step, "body");
    }
    assert!(volume.names(Path::new("c")).is_empty());
    let left = volume.names(Path::new("s"));
    let entries: Vec<DirEntry> = left.iter().map(|name| entry(name, Some(true))).collect();
    let listing: Result<Vec<DirEntry>, ListError<u8>> = Ok(entries);
    assert_eq!(plan_sweep(listing).unwrap(), vec![0]);
}

#[test]
fn staged_write_of_a_bare_name_creates_only_the_staging_directory() {
    let plan = plan_staged_write(&PathBuf::from("note.md"), &PathBuf::from("s"), true);
    assert_eq!(
        shown(&plan),
        vec!["dirs s", "temp s", "write", "flush", "rename note.md", "flush ."]
    );
}

#[test]
fn staged_write_without_a_parent_is_refused_at_the_end() {
    let plan = plan_staged(&PathBuf::from("/"), None, &PathBuf::from("s"), true);
    assert_eq!(shown(&plan), vec!["dirs s", "temp s", "write", "flush", "rename /", "refuse"]);
    let plan = plan_staged(&PathBuf::from("/"), None, &PathBuf::from("s"), false);
    assert_eq!(shown(&plan).len(), 5);
    let plan = plan_staged_write(&PathBuf::from(""), &PathBuf::from("s"), true);
    assert_eq!(shown(&plan), vec!["dirs s", "temp s", "write", "flush", "rename ", "refuse"]);
}

#[test]
fn sweep_removes_only_its_own_leftovers() {
    let entries = vec![
        entry(&format!("{TEMP_PREFIX}abc"), Some(true)),
        entry("someone-else.tmp", Some(true)),
        entry(&format!("{TEMP_PREFIX}dir"), Some(false)),
    ];
    let listing: Result<Vec<DirEntry>, ListError<u8>> = Ok(entries);
    assert_eq!(plan_sweep(listing).unwrap(), vec![0]);
    assert_eq!(count_removed(&vec![true]), 1);
}

#[test]
fn sweep_keeps_the_order_and_skips_what_cannot_be_removed() {
    let entries = vec![
        entry("a", Some(true)),
        entry(&format!("{TEMP_PREFIX}1"), Some(true)),
        entry(&format!("{TEMP_PREFIX}2"), None),
        entry(&format!("x{TEMP_PREFIX}"), Some(true)),
        entry(TEMP_PREFIX, Some(true)),
    ];
    let listing: Result<Vec<DirEntry>, ListError<u8>> = Ok(entries);
    assert_eq!(plan_sweep(listing).unwrap(), vec![1, 4]);
    assert_eq!(count_removed(&vec![false, true, false, true]), 2);
    assert_eq!(count_removed(&vec![]), 0);
}

/// Sweeps a directory in which the files that `held` names cannot be removed; returns the count.
fn sweep(entries: &mut Vec<DirEntry>, held: &[&str]) -> usize {
    let listing: Result<Vec<DirEntry>, ListError<u8>> = Ok(entries.clone());
    let indices = plan_sweep(listing).unwrap();
    let removals: Vec<bool> = indices
        .iter()
        .map(|i| !held.contains(&entries[*i].name.as_str()))
        .collect();
    for (i, removed) in indices.iter().zip(&removals).rev() {
        if *removed {
            entries.remove(*i);
        }
    }
    count_removed(&removals)
}

#[test]
fn a_second_sweep_removes_nothing() {
    let mut entries = vec![
        entry(&format!("{TEMP_PREFIX}1"), Some(true)),
        entry("kept", Some(true)),
        entry(&format!("{TEMP_PREFIX}held"), Some(true)),
        entry(&format!("{TEMP_PREFIX}2"), Some(true)),
    ];
    let held = format!("{TEMP_PREFIX}held");
    assert_eq!(sweep(&mut entries, &[&held]), 2);
    assert_eq!(entries.len(), 2);
    assert_eq!(sweep(&mut entries, &[&held]), 0);
    let names: Vec<&str> = entries.iter().map(|e| e.name.as_str()).collect();
    assert_eq!(names, vec!["kept", held.as_str()]);
}

#[test]
fn sweeping_a_missing_directory_is_not_an_error() {
    let missing: Result<Vec<DirEntry>, ListError<u8>> = Err(ListError::NotFound);
    let none: Vec<usize> = Vec::new();
    assert_eq!(plan_sweep(missing).unwrap(), none);
}

#[test]
fn another_listing_error_ends_the_sweep() {
    let failed: Result<Vec<DirEntry>, ListError<u8>> = Err(ListError::Other(13));
    assert_eq!(plan_sweep(failed).unwrap_err(), 13);
}

#[test]
fn a_leftover_is_a_file_with_the_prefix() {
    assert_eq!(TEMP_PREFIX, ".tauri-kit-tmp-");
    assert!(is_leftover(&entry(".tauri-kit-tmp-x9", Some(true))));
    assert!(!is_leftover(&entry(".tauri-kit-tmp", Some(true))));
    assert!(!is_leftover(&entry(".tauri-kit-tmp-x9", Some(false))));
}

/// A file on a simulated disk: its content, and whether it is flushed.
#[derive(Clone)]
struct File {
    content: &'static str,
    flushed: bool,
}

/// What the target may hold after a crash, once the first `count` steps of a plan were carried out
/// on a disk whose target held "old"; an unflushed file is found torn. Also tells whether a
/// temporary file is left.
fn crash_after(plan: &Vec<WriteStep>, count: usize, buffered: bool) -> (Vec<&'static str>, bool) {
    let old = File { content: "old", flushed: true };
    let mut target = old.clone();
    let mut durable = old;
    let mut temp: Option<File> = None;
    for step in plan.iter().take(count) {
        match step {
            WriteStep::CreateDirs(_) => {}
            WriteStep::CreateTemp(_, _) => temp = Some(File { content: "", flushed: false }),
            WriteStep::WriteTemp => temp = Some(File { content: "new", flushed: false }),
            WriteStep::FlushTemp => temp.as_mut().unwrap().flushed = true,
            WriteStep::Rename(_) => {
                target = temp.take().unwrap();
                if !buffered {
                    durable = target.clone();
                }
            }
            WriteStep::FlushDir(_) => durable = target.clone(),
            WriteStep::Refuse(_) => panic!("refused"),
        }
    }
    let seen = [target, durable]
        .iter()
        .map(|file| if file.flushed { file.content } else { "torn" })
        .collect();
    (seen, temp.is_some())
}

#[test]
fn a_root_is_refused_like_the_empty_path() {
    for path in ["", "/"] {
        assert_eq!(plan_write(&PathBuf::from(path), true).unwrap_err(), PathError::NoParent);
        let plan = plan_staged_write(&PathBuf::from(path), &PathBuf::from("s"), true);
        assert_eq!(shown(&plan)[5], "refuse");
    }
}

#[test]
fn a_crash_at_any_step_leaves_the_old_content_or_the_new() {
    for buffered in [true, false] {
        let plan = plan_write(&PathBuf::from("x/a.txt"), buffered).unwrap();
        for count in 0..plan.len() + 1 {
            let (seen, _) = crash_after(&plan, count, buffered);
            assert!(seen.iter().all(|content| *content == "old" || *content == "new"));
            // Up to the rename nothing has changed.
            if count <= 4 {
                assert_eq!(seen, vec!["old", "old"]);
            }
        }
        // A finished write is durable and leaves no temporary file.
        assert_eq!(crash_after(&plan, plan.len(), buffered), (vec!["new", "new"], false));
    }
}
