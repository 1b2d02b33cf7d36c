//! The repository: the git2 items this library relies on, each behind a
//! small wrapper that hands back plain values. What a repository holds is
//! read from disk, so no wrapper promises anything of what it returns.
use vstd::prelude::*;
use crate::correlate::Delta;
use git2::Error as GitError;

verus! {

#[verifier::external_type_specification]
#[verifier::external_body]
pub struct ExRepository(git2::Repository);

#[verifier::external_type_specification]
#[verifier::external_body]
pub struct ExGitError(GitError);

#[verifier::external_type_specification]
#[verifier::external_body]
pub struct ExOid(git2::Oid);

#[verifier::external_type_specification]
#[verifier::external_body]
pub struct ExTree<'repo>(git2::Tree<'repo>);

#[verifier::external_type_specification]
#[verifier::external_body]
pub struct ExCommit<'repo>(git2::Commit<'repo>);

/// One entry met while walking a tree: the directory prefix it sits under
/// (empty or ending in `/`), its name where that is UTF-8, and whether it
/// is a blob, that is a file.
#[derive(Debug)]
pub struct TreeItem {
    pub dir: String,
    pub name: Option<String>,
    pub is_blob: bool,
}

/// One entry of the repository status: its path where that is UTF-8, and
/// its status flags as libgit2 reports them.
#[derive(Debug)]
pub struct StatusItem {
    pub path: Option<String>,
    pub bits: u32,
}

/// Relies on `git2::Repository::open_from_env`: finds the repository from
/// `$GIT_DIR` or by searching up from the current directory.
#[verifier::external_body]
pub(crate) fn open_from_env() -> (r: Result<git2::Repository, GitError>) {
    git2::Repository::open_from_env()
}

/// Relies on `git2::Repository::head` and `git2::Reference::peel_to_tree`:
/// the tree of the commit that HEAD names.
#[verifier::external_body]
pub(crate) fn head_tree(repo: &git2::Repository) -> (r: Result<git2::Tree<'_>, GitError>) {
    repo.head()?.peel_to_tree()
}

/// Relies on `git2::Tree::walk` in pre-order: every entry of the tree and of
/// its subtrees, with the directory each sits under.
#[verifier::external_body]
pub(crate) fn tree_items(tree: &git2::Tree<'_>) -> (r: Result<Vec<TreeItem>, GitError>) {
    let mut items = Vec::new();
    tree.walk(git2::TreeWalkMode::PreOrder, |dir, entry| {
        let name = entry.name().ok().map(String::from);
        let is_blob = entry.kind() == Some(git2::ObjectType::Blob);
        items.push(TreeItem { dir: dir.to_string(), name, is_blob });
        git2::TreeWalkResult::Ok
    })?;
    Ok(items)
}

/// Relies on `git2::Tree::get_path`, `git2::TreeEntry::kind` and
/// `git2::TreeEntry::id`: the id, in hexadecimal, of the entry at `path`
/// where it is a blob, `None` where it is something else.
#[verifier::external_body]
pub(crate) fn tree_blob_id(tree: &git2::Tree<'_>, path: &String) -> (r: Result<Option<String>, GitError>) {
    let entry = tree.get_path(std::path::Path::new(path))?;
    match entry.kind() {
        Some(git2::ObjectType::Blob) => Ok(Some(entry.id().to_string())),
        _ => Ok(None),
    }
}

/// Relies on `git2::Repository::statuses`, with unmodified files included,
/// submodules excluded, ignored files included on request, and both the
/// index and the working tree compared.
#[verifier::external_body]
pub(crate) fn status_items(repo: &git2::Repository, include_ignored: bool) -> (r: Result<Vec<StatusItem>, GitError>) {
    let mut options = git2::StatusOptions::new();
    options.include_unmodified(true).exclude_submodules(true).include_ignored(include_ignored);
    options.show(git2::StatusShow::IndexAndWorkdir);
    let statuses = repo.statuses(Some(&mut options))?;
    Ok(statuses.iter().map(|e| StatusItem { path: e.path().ok().map(String::from), bits: e.status().bits() }).collect())
}

/// Relies on `git2::Repository::revwalk`, `git2::Revwalk::push_head` and
/// `git2::Revwalk::simplify_first_parent`: the commits reached from HEAD
/// through first parents only, newest first.
#[verifier::external_body]
pub(crate) fn first_parent_history(repo: &git2::Repository) -> (r: Result<Vec<git2::Oid>, GitError>) {
    let mut walk = repo.revwalk()?;
    walk.push_head()?;
    walk.simplify_first_parent()?;
    walk.collect()
}

/// Relies on `git2::Repository::find_commit`: the commit with this id.
#[verifier::external_body]
pub(crate) fn find_commit(repo: &git2::Repository, id: git2::Oid) -> (r: Result<git2::Commit<'_>, GitError>) {
    repo.find_commit(id)
}

/// Relies on `git2::Commit::time` and `git2::Time::seconds`: the commit's
/// time in seconds since the epoch.
#[verifier::external_body]
pub(crate) fn commit_seconds(commit: &git2::Commit<'_>) -> (r: i64) {
    commit.time().seconds()
}

/// Relies on `git2::Commit::tree`: the commit's own tree.
#[verifier::external_body]
pub(crate) fn commit_tree<'repo>(commit: &git2::Commit<'repo>) -> (r: Result<git2::Tree<'repo>, GitError>) {
    commit.tree()
}

/// Relies on `git2::Commit::parent` and `git2::Commit::tree`: the tree of the
/// first parent, `None` for a root commit.
#[verifier::external_body]
pub(crate) fn first_parent_tree<'repo>(commit: &git2::Commit<'repo>) -> (r: Option<git2::Tree<'repo>>) {
    commit.parent(0).and_then(|p| p.tree()).ok()
}

/// Relies on `git2::Repository::diff_tree_to_tree`, `git2::Diff::find_similar`
/// with rename detection, and `git2::Diff::deltas`: the new side of each
/// changed entry between `old` (the empty tree where absent) and `new`.
#[verifier::external_body]
pub(crate) fn diff_with_renames(
    repo: &git2::Repository,
    old: Option<&git2::Tree<'_>>,
    new: &git2::Tree<'_>,
) -> (r: Result<Vec<Delta>, GitError>) {
    let mut diff = repo.diff_tree_to_tree(old, Some(new), None)?;
    diff.find_similar(Some(git2::DiffFindOptions::new().renames(true)))?;
    let file = |d: git2::DiffDelta<'_>| (d.new_file().id().to_string(), d.new_file().path().and_then(|p| p.to_str()).map(String::from));
    Ok(diff.deltas().map(file).map(|(new_id, new_path)| Delta { new_id, new_path }).collect())
}

/// Relies on the `Display` impl of `git2::Error`: its message.
#[verifier::external_body]
pub(crate) fn git_error_text(e: &GitError) -> (r: String) {
    e.to_string()
}

} // verus!
