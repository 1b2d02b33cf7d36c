use git_warp_time::error::Error;
use git_warp_time::fileset::{file_set_from, FileSet};
use git_warp_time::options::Options;
use git_warp_time::repo::{gather_workdir_files, head_candidates, process_touchables, select_touchables, walk_history};

const T0: i64 = 1_600_000_000;
const T1: i64 = 1_650_000_000;

fn fresh_repo(tag: &str) -> git2::Repository {
    let nanos = std::time::SystemTime::now().duration_since(std::time::UNIX_EPOCH).unwrap().as_nanos();
    git2::Repository::init_bare(format!("/tmp/warp-time-{tag}-{nanos}")).unwrap()
}

fn write_tree(repo: &git2::Repository, files: &[(&str, &[u8])]) -> git2::Oid {
    let mut builder = repo.treebuilder(None).unwrap();
    for (name, content) in files {
        let blob = repo.blob(content).unwrap();
        builder.insert(name, blob, 0o100644).unwrap();
    }
    builder.write().unwrap()
}

fn commit_tree(repo: &git2::Repository, tree: git2::Oid, time: i64) -> git2::Oid {
    let tree = repo.find_tree(tree).unwrap();
    let sig = git2::Signature::new("Tester", "tester@example.com", &git2::Time::new(time, 0)).unwrap();
    let parent = repo.head().ok().and_then(|h| h.peel_to_commit().ok());
    let parents: Vec<&git2::Commit> = parent.iter().collect();
    repo.commit(Some("HEAD"), &sig, &sig, "change", &tree, &parents).unwrap()
}

fn commit_files(repo: &git2::Repository, files: &[(&str, &[u8])], time: i64) -> git2::Oid {
    let tree = write_tree(repo, files);
    commit_tree(repo, tree, time)
}

fn set(paths: &[&str]) -> FileSet {
    file_set_from(paths.iter().map(|p| p.to_string()).collect())
}

fn explicit(paths: &[&str]) -> Options {
    Options::new().paths(Some(set(paths)))
}

fn attributed(repo: &git2::Repository, paths: &[&str]) -> Vec<(String, i64)> {
    let selection = select_touchables(repo, &explicit(paths)).unwrap();
    let res = process_touchables(repo, &selection.candidates).unwrap();
    let mut v: Vec<(String, i64)> = res.iter().map(|r| (r.path.clone(), r.time)).collect();
    v.sort();
    v
}

#[test]
fn repository_simple_add() {
    let repo = fresh_repo("add");
    commit_files(&repo, &[("f.txt", b"A\n")], T0);
    assert_eq!(attributed(&repo, &["f.txt"]), vec![("f.txt".to_string(), T0)]);
}

#[test]
fn repository_modification() {
    let repo = fresh_repo("modify");
    commit_files(&repo, &[("f.txt", b"A\n")], T0);
    commit_files(&repo, &[("f.txt", b"B\n")], T1);
    assert_eq!(attributed(&repo, &["f.txt"]), vec![("f.txt".to_string(), T1)]);
}

#[test]
fn repository_rename() {
    let repo = fresh_repo("rename");
    let text: &[u8] = b"the same content, long enough to be recognised as a rename\n";
    commit_files(&repo, &[("a.txt", text)], T0);
    commit_files(&repo, &[("b.txt", text)], T1);
    assert_eq!(attributed(&repo, &["b.txt"]), vec![("b.txt".to_string(), T1)]);
}

#[test]
fn repository_untouched_file_keeps_first_commit() {
    let repo = fresh_repo("untouched");
    commit_files(&repo, &[("u.txt", b"U\n"), ("v.txt", b"1\n")], T0);
    commit_files(&repo, &[("u.txt", b"U\n"), ("v.txt", b"2\n")], T1);
    assert_eq!(
        attributed(&repo, &["u.txt", "v.txt"]),
        vec![("u.txt".to_string(), T0), ("v.txt".to_string(), T1)]
    );
}

#[test]
fn repository_untracked_explicit_path() {
    let repo = fresh_repo("untracked");
    commit_files(&repo, &[("f.txt", b"A\n")], T0);
    match select_touchables(&repo, &explicit(&["g.txt"])) {
        Err(Error::PathNotTracked { paths }) => assert_eq!(paths, vec!["g.txt".to_string()]),
        other => panic!("expected PathNotTracked, got {:?}", other),
    }
}

#[test]
fn repository_head_files_include_subdirectories() {
    let repo = fresh_repo("nested");
    let sub = write_tree(&repo, &[("lib.rs", b"fn main() {}\n")]);
    let mut builder = repo.treebuilder(None).unwrap();
    builder.insert("README.md", repo.blob(b"hi\n").unwrap(), 0o100644).unwrap();
    builder.insert("src", sub, 0o040000).unwrap();
    let root = builder.write().unwrap();
    commit_tree(&repo, root, T0);
    let files = gather_workdir_files(&repo).unwrap();
    let mut v: Vec<String> = (0..files.len()).map(|i| files.get(i).clone()).collect();
    v.sort();
    assert_eq!(v, vec!["README.md".to_string(), "src/lib.rs".to_string()]);
    assert_eq!(attributed(&repo, &["src/lib.rs"]), vec![("src/lib.rs".to_string(), T0)]);
}

#[test]
fn repository_without_commits_fails() {
    let repo = fresh_repo("empty");
    assert!(matches!(gather_workdir_files(&repo), Err(Error::LibGitError { .. })));
}

fn fresh_worktree(tag: &str) -> git2::Repository {
    let nanos = std::time::SystemTime::now().duration_since(std::time::UNIX_EPOCH).unwrap().as_nanos();
    git2::Repository::init(format!("/tmp/warp-time-{tag}-{nanos}")).unwrap()
}

fn sorted_candidates(repo: &git2::Repository, opts: &Options) -> Vec<String> {
    let selection = select_touchables(repo, opts).unwrap();
    let files = &selection.candidates;
    let mut v: Vec<String> = (0..files.len()).map(|i| files.get(i).clone()).collect();
    v.sort();
    v
}

#[test]
fn repository_status_selects_clean_files() {
    let repo = fresh_worktree("status");
    let first = commit_files(&repo, &[("f.txt", b"A\n"), ("g.txt", b"G\n")], T0);
    commit_files(&repo, &[("f.txt", b"B\n"), ("g.txt", b"G\n")], T1);
    let mut checkout = git2::build::CheckoutBuilder::new();
    checkout.force();
    repo.checkout_head(Some(&mut checkout)).unwrap();
    assert_eq!(sorted_candidates(&repo, &Options::new()), vec!["f.txt".to_string(), "g.txt".to_string()]);

    let old = repo.find_commit(first).unwrap();
    let mut only_f = git2::build::CheckoutBuilder::new();
    only_f.force().path("f.txt");
    repo.checkout_tree(old.as_object(), Some(&mut only_f)).unwrap();
    let selection = select_touchables(&repo, &Options::new()).unwrap();
    let skipped: Vec<String> = selection.skipped.iter().map(|s| s.path.clone()).collect();
    assert_eq!(skipped, vec!["f.txt".to_string()]);
    assert_eq!(sorted_candidates(&repo, &Options::new()), vec!["g.txt".to_string()]);
    assert_eq!(
        sorted_candidates(&repo, &Options::new().dirty(true)),
        vec!["f.txt".to_string(), "g.txt".to_string()]
    );
}

#[test]
fn repository_bare_has_no_status() {
    let repo = fresh_repo("bare");
    commit_files(&repo, &[("f.txt", b"A\n")], T0);
    assert!(matches!(select_touchables(&repo, &Options::new()), Err(Error::LibGitError { .. })));
}

fn first_parent_ids(repo: &git2::Repository) -> Vec<git2::Oid> {
    let mut walk = repo.revwalk().unwrap();
    walk.push_head().unwrap();
    walk.simplify_first_parent().unwrap();
    walk.map(|id| id.unwrap()).collect()
}

#[test]
fn walk_of_empty_history_fails() {
    let repo = fresh_repo("walk-empty");
    match walk_history(&repo, &vec![], &set(&["f.txt"])) {
        Err(Error::UnresolvedError) => {}
        other => panic!("expected UnresolvedError, got {:?}", other),
    }
}

#[test]
fn walk_attributes_along_given_history() {
    let repo = fresh_repo("walk");
    commit_files(&repo, &[("f.txt", b"A\n"), ("g.txt", b"G\n")], T0);
    commit_files(&repo, &[("f.txt", b"B\n"), ("g.txt", b"G\n")], T1);
    let ids = first_parent_ids(&repo);
    assert_eq!(ids.len(), 2);
    let res = walk_history(&repo, &ids, &set(&["f.txt", "g.txt"])).unwrap();
    let got: Vec<(String, i64)> = res.iter().map(|r| (r.path.clone(), r.time)).collect();
    assert_eq!(got, vec![("f.txt".to_string(), T1), ("g.txt".to_string(), T0)]);
    let newest_only = walk_history(&repo, &ids[..1].to_vec(), &set(&["f.txt", "g.txt"])).unwrap();
    let got: Vec<(String, i64)> = newest_only.iter().map(|r| (r.path.clone(), r.time)).collect();
    assert_eq!(got, vec![("f.txt".to_string(), T1)]);
}

#[test]
fn candidates_of_no_files() {
    let repo = fresh_repo("no-files");
    commit_files(&repo, &[("f.txt", b"A\n")], T0);
    let tree = repo.head().unwrap().peel_to_tree().unwrap();
    assert!(head_candidates(&tree, &FileSet::new()).unwrap().is_empty());
    let cands = head_candidates(&tree, &set(&["f.txt"])).unwrap();
    assert_eq!(cands.len(), 1);
    assert_eq!(cands[0].path, "f.txt");
    assert_eq!(cands[0].id, repo.blob(b"A\n").unwrap().to_string());
    assert!(matches!(head_candidates(&tree, &set(&["g.txt"])), Err(Error::LibGitError { .. })));
}
