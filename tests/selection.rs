use git_warp_time::error::{render_paths, Error};
use git_warp_time::fileset::{file_set_from, FileSet};
use git_warp_time::git::{StatusItem, TreeItem};
use git_warp_time::options::Options;
use git_warp_time::paths::repo_relative_path;
use git_warp_time::select::{
    admits, classify, head_file_paths, intersect, select_by_status, select_explicit, StatusClass,
};

fn s(x: &str) -> String {
    x.to_string()
}

fn set(paths: &[&str]) -> FileSet {
    file_set_from(paths.iter().map(|p| p.to_string()).collect())
}

fn sorted(f: &FileSet) -> Vec<String> {
    let mut v: Vec<String> = (0..f.len()).map(|i| f.get(i).clone()).collect();
    v.sort();
    v
}

fn status(path: &str, bits: u32) -> StatusItem {
    StatusItem { path: Some(s(path)), bits }
}

#[test]
fn untracked_explicit_path_is_reported() {
    let head = set(&["f.txt", "src/a.rs"]);
    match select_explicit(&head, &set(&["g.txt"])) {
        Err(Error::PathNotTracked { paths }) => assert_eq!(paths, vec![s("g.txt")]),
        other => panic!("expected PathNotTracked, got {:?}", other),
    }
}

#[test]
fn every_untracked_path_is_listed() {
    let head = set(&["f.txt"]);
    match select_explicit(&head, &set(&["g.txt", "f.txt", "h.txt"])) {
        Err(Error::PathNotTracked { paths }) => assert_eq!(paths, vec![s("g.txt"), s("h.txt")]),
        other => panic!("expected PathNotTracked, got {:?}", other),
    }
}

#[test]
fn tracked_explicit_paths_are_selected() {
    let head = set(&["f.txt", "src/a.rs", "b.txt"]);
    let chosen = select_explicit(&head, &set(&["src/a.rs", "f.txt"])).unwrap();
    assert_eq!(sorted(&chosen), vec![s("f.txt"), s("src/a.rs")]);
}

#[test]
fn not_tracked_message_lists_paths() {
    let e = Error::PathNotTracked { paths: vec![s("g.txt"), s("h.txt")] };
    assert_eq!(e.message(), "Paths {\"g.txt\", \"h.txt\"} are not tracked in the repository.");
    assert_eq!(render_paths(&vec![]), "{}");
    assert_eq!(render_paths(&vec![s("a")]), "{\"a\"}");
}

#[test]
fn status_flags_are_classified() {
    assert_eq!(classify(0), StatusClass::Current);
    assert_eq!(classify(2), StatusClass::StagedChanges);
    assert_eq!(classify(256), StatusClass::LocalChanges);
    assert_eq!(classify(258), StatusClass::StagedAndLocalChanges);
    assert_eq!(classify(16384), StatusClass::Ignored);
    assert_eq!(classify(128), StatusClass::Other { bits: 128 });
    assert_eq!(classify(1), StatusClass::Other { bits: 1 });
}

#[test]
fn flags_admit_classes() {
    assert!(admits(StatusClass::Current, false, false));
    assert!(!admits(StatusClass::StagedChanges, false, true));
    assert!(admits(StatusClass::StagedChanges, true, false));
    assert!(admits(StatusClass::LocalChanges, true, false));
    assert!(admits(StatusClass::StagedAndLocalChanges, true, false));
    assert!(!admits(StatusClass::Ignored, true, false));
    assert!(admits(StatusClass::Ignored, false, true));
    assert!(!admits(StatusClass::Other { bits: 512 }, true, true));
}

#[test]
fn status_selection_default_flags() {
    let items = vec![status("a.txt", 0), status("b.txt", 256), status("c.txt", 2), status("d.txt", 16384), status("e.txt", 512)];
    let sel = select_by_status(&items, false, false).unwrap();
    assert_eq!(sorted(&sel.candidates), vec![s("a.txt")]);
    let skipped: Vec<(String, StatusClass)> = sel.skipped.iter().map(|k| (k.path.clone(), k.class)).collect();
    assert_eq!(
        skipped,
        vec![
            (s("b.txt"), StatusClass::LocalChanges),
            (s("c.txt"), StatusClass::StagedChanges),
            (s("d.txt"), StatusClass::Ignored),
            (s("e.txt"), StatusClass::Other { bits: 512 }),
        ]
    );
}

#[test]
fn status_selection_dirty_and_ignored() {
    let items = vec![status("a.txt", 0), status("b.txt", 256), status("c.txt", 2), status("d.txt", 16384), status("e.txt", 512)];
    let sel = select_by_status(&items, true, false).unwrap();
    assert_eq!(sorted(&sel.candidates), vec![s("a.txt"), s("b.txt"), s("c.txt")]);
    let sel = select_by_status(&items, false, true).unwrap();
    assert_eq!(sorted(&sel.candidates), vec![s("a.txt"), s("d.txt")]);
}

#[test]
fn status_without_path_fails() {
    let items = vec![status("a.txt", 0), StatusItem { path: None, bits: 0 }];
    assert!(matches!(select_by_status(&items, false, false), Err(Error::UnresolvedError)));
}

#[test]
fn tree_walk_gives_file_paths() {
    let items = vec![
        TreeItem { dir: s(""), name: Some(s("README.md")), is_blob: true },
        TreeItem { dir: s(""), name: Some(s("src")), is_blob: false },
        TreeItem { dir: s("src/"), name: Some(s("lib.rs")), is_blob: true },
        TreeItem { dir: s("src/"), name: None, is_blob: true },
    ];
    assert_eq!(sorted(&head_file_paths(&items)), vec![s("README.md"), s("src/lib.rs")]);
}

#[test]
fn intersection_of_sets() {
    let a = set(&["a", "b", "c"]);
    let b = set(&["c", "d", "a"]);
    assert_eq!(sorted(&intersect(&a, &b)), vec![s("a"), s("c")]);
    assert!(intersect(&a, &FileSet::new()).is_empty());
}

#[test]
fn file_set_keeps_each_path_once() {
    let mut f = FileSet::new();
    assert!(f.is_empty());
    assert!(f.insert(s("a")));
    assert!(f.insert(s("b")));
    assert!(!f.insert(s("a")));
    assert_eq!(f.len(), 2);
    assert!(f.contains(&s("b")));
    assert!(!f.contains(&s("c")));
    assert_eq!(f.get(0), "a");
    assert_eq!(set(&["x", "y", "x"]).len(), 2);
    assert_eq!(sorted(&f.duplicate()), vec![s("a"), s("b")]);
}

#[test]
fn options_builders() {
    let o = Options::new();
    assert!(o.paths.is_none() && !o.dirty && !o.ignored && !o.ignore_older && !o.verbose);
    let o = o.dirty(true).ignored(true).ignore_older(true).verbose(true).paths(Some(set(&["f.txt"])));
    assert!(o.dirty && o.ignored && o.ignore_older && o.verbose);
    assert_eq!(o.paths.as_ref().map(|p| p.len()), Some(1));
    let o = o.dirty(false);
    assert!(!o.dirty && o.ignored);
    assert_eq!(o.paths.as_ref().map(sorted), Some(vec![s("f.txt")]));
    let d = Options::default();
    assert!(d.paths.is_none() && !d.verbose);
}

#[test]
fn relative_path_from_subdirectory() {
    let r = repo_relative_path(&s("/work/repo/src"), &s("/work/repo/"), s("lib.rs")).unwrap();
    assert_eq!(r, "src/lib.rs");
    let r = repo_relative_path(&s("/work/repo"), &s("/work/repo/"), s("f.txt")).unwrap();
    assert_eq!(r, "f.txt");
}

#[test]
fn absolute_path_is_kept() {
    let r = repo_relative_path(&s("/work/repo/src"), &s("/work/repo/"), s("/etc/passwd")).unwrap();
    assert_eq!(r, "/etc/passwd");
}

#[test]
fn directory_outside_repository_fails() {
    let r = repo_relative_path(&s("/elsewhere"), &s("/work/repo/"), s("f.txt"));
    assert!(matches!(r, Err(Error::PathError)));
}
