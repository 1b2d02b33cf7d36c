//! The steps of a run that read the repository: the files of the head tree,
//! the status of the working tree, and the walk through first-parent history.
use vstd::prelude::*;
use crate::correlate::{
    cand_paths, lemma_resolved_paths_distinct, pending_after, res_paths, resolutions, resolve_commit,
    Candidate, CommitChanges, Resolution,
};
use crate::error::Error;
use crate::fileset::FileSet;
use crate::git::{
    commit_seconds, commit_tree, diff_with_renames, find_commit, first_parent_history,
    first_parent_tree, head_tree, open_from_env, status_items, tree_blob_id, tree_items,
};
use crate::options::Options;
use crate::git::{StatusItem, TreeItem};
use crate::select::{
    admitted_paths, blob_paths, head_file_paths, intersect, select_by_status, select_explicit, skip_justified,
    Selection,
};

verus! {

/// The repository found from `$GIT_DIR` or from the current directory.
pub fn get_repo() -> (r: Result<git2::Repository, Error>)
    ensures
        r matches Err(e) ==> e is LibGitError,
{
    match open_from_env() {
        Ok(repo) => Ok(repo),
        Err(source) => Err(Error::LibGitError { source }),
    }
}

/// The paths of every file in the head commit's tree.
pub fn gather_workdir_files(repo: &git2::Repository) -> (r: Result<FileSet, Error>)
    ensures
        r matches Ok(s) ==> exists|items: Seq<TreeItem>| s@ == blob_paths(items),
        r matches Err(e) ==> e is LibGitError,
{
    let tree = match head_tree(repo) {
        Ok(tree) => tree,
        Err(source) => return Err(Error::LibGitError { source }),
    };
    match tree_items(&tree) {
        Ok(items) => Ok(head_file_paths(&items)),
        Err(source) => Err(Error::LibGitError { source }),
    }
}

/// The files whose status the options admit, and those skipped.
pub fn gather_index_files(repo: &git2::Repository, opts: &Options) -> (r: Result<Selection, Error>)
    ensures
        r matches Ok(s) ==> exists|items: Seq<StatusItem>|
            s.candidates@ == admitted_paths(items, opts.dirty, opts.ignored) && forall|k: int|
                0 <= k < s.skipped@.len() ==> skip_justified(items, #[trigger] s.skipped@[k], opts.dirty, opts.ignored),
        r matches Err(e) ==> e is LibGitError || e is UnresolvedError,
{
    match status_items(repo, opts.ignored) {
        Ok(items) => select_by_status(&items, opts.dirty, opts.ignored),
        Err(source) => Err(Error::LibGitError { source }),
    }
}

/// The files to synchronise: the explicit paths of the options, all of which
/// must be files of the head tree, or else the files of the head tree whose
/// status the options admit.
pub fn select_touchables(repo: &git2::Repository, opts: &Options) -> (r: Result<Selection, Error>)
    ensures
        opts.paths matches Some(req) ==> (r matches Ok(s) ==> s.candidates@ == req@ && s.skipped@.len() == 0),
        opts.paths matches Some(req) ==> (r matches Err(e) ==> e is LibGitError || (e matches Error::PathNotTracked { paths }
            && exists|tree: Seq<TreeItem>| !req@.subset_of(blob_paths(tree))
            && paths@.map_values(|p: String| p@).to_set() == req@.difference(blob_paths(tree)))),
        opts.paths is None ==> (r matches Ok(s) ==> exists|tree: Seq<TreeItem>, status: Seq<StatusItem>|
            s.candidates@ == blob_paths(tree).intersect(admitted_paths(status, opts.dirty, opts.ignored))),
        opts.paths is None ==> (r matches Err(e) ==> e is LibGitError || e is UnresolvedError),
{
    let head = match gather_workdir_files(repo) {
        Ok(head) => head,
        Err(e) => return Err(e),
    };
    let ghost tree = choose|tree: Seq<TreeItem>| head@ == blob_paths(tree);
    match &opts.paths {
        Some(requested) => {
            match select_explicit(&head, requested) {
                Ok(candidates) => {
                    assert(candidates@ =~= requested@);
                    Ok(Selection { candidates, skipped: Vec::new() })
                },
                Err(e) => Err(e),
            }
        },
        None => {
            let selection = match gather_index_files(repo, opts) {
                Ok(selection) => selection,
                Err(e) => return Err(e),
            };
            let ghost status = choose|items: Seq<StatusItem>|
                selection.candidates@ == admitted_paths(items, opts.dirty, opts.ignored) && forall|k: int|
                    0 <= k < selection.skipped@.len() ==> skip_justified(
                        items,
                        #[trigger] selection.skipped@[k],
                        opts.dirty,
                        opts.ignored,
                    );
            let candidates = intersect(&head, &selection.candidates);
            assert(candidates@ == blob_paths(tree).intersect(admitted_paths(status, opts.dirty, opts.ignored)));
            Ok(Selection { candidates, skipped: selection.skipped })
        },
    }
}

/// The candidates for the given paths, each with the id of its content in
/// `tree`; fails where a path is not a file there.
pub fn head_candidates(tree: &git2::Tree<'_>, touchables: &FileSet) -> (r: Result<Vec<Candidate>, Error>)
    ensures
        r matches Ok(c) ==> cand_paths(c@) == touchables.entries(),
        r matches Ok(c) ==> cand_paths(c@).no_duplicates(),
        touchables.entries().len() == 0 ==> r is Ok,
        r matches Err(e) ==> e is LibGitError || e is UnresolvedError,
{
    let mut cands: Vec<Candidate> = Vec::new();
    let mut i: usize = 0;
    let n = touchables.len();
    while i < n
        invariant
            i <= n,
            n == touchables.entries().len(),
            cands@.map_values(|c: Candidate| c.path@) == touchables.entries().subrange(0, i as int),
        decreases n - i,
    {
        let path = touchables.get(i);
        let id = match tree_blob_id(tree, path) {
            Ok(Some(id)) => id,
            Ok(None) => return Err(Error::UnresolvedError),
            Err(source) => return Err(Error::LibGitError { source }),
        };
        let ghost before = cands@;
        cands.push(Candidate::new(id, path.clone()));
        assert(cands@.map_values(|c: Candidate| c.path@) =~= before.map_values(|c: Candidate| c.path@).push(path@));
        assert(touchables.entries().subrange(0, i + 1) =~= touchables.entries().subrange(0, i as int).push(path@));
        i = i + 1;
    }
    assert(touchables.entries().subrange(0, i as int) =~= touchables.entries());
    Ok(cands)
}

/// The deltas of a commit's diff against its first parent, or against the
/// empty tree for a root commit, with renames detected.
fn commit_changes(repo: &git2::Repository, commit: &git2::Commit<'_>) -> (r: Result<CommitChanges, Error>)
    ensures
        r matches Err(e) ==> e is LibGitError,
{
    let new = match commit_tree(commit) {
        Ok(tree) => tree,
        Err(source) => return Err(Error::LibGitError { source }),
    };
    let old = first_parent_tree(commit);
    let deltas = match diff_with_renames(repo, old.as_ref(), &new) {
        Ok(deltas) => deltas,
        Err(source) => return Err(Error::LibGitError { source }),
    };
    Ok(CommitChanges::new(commit_seconds(commit), deltas))
}

/// Walks the first-parent history `ids` (newest first, HEAD's commit first)
/// and attributes each of the given files to the first commit whose diff
/// adds or changes its current content, as it is in the tree of `ids[0]`, at
/// its current path. The walk goes on until every file is attributed or the
/// history ends; files that no commit matches are left out.
pub fn walk_history(repo: &git2::Repository, ids: &Vec<git2::Oid>, touchables: &FileSet) -> (r: Result<
    Vec<Resolution>,
    Error,
>)
    ensures
        r matches Ok(res) ==> exists|cands: Seq<Candidate>, history: Seq<CommitChanges>|
            cand_paths(cands) == touchables.entries() && res@ == resolutions(cands, history)
                && history.len() <= ids@.len() && (history.len() == ids@.len() || pending_after(
                cands,
                history,
            ).len() == 0),
        r matches Ok(res) ==> res_paths(res@).no_duplicates(),
        r matches Ok(res) ==> forall|p: Seq<char>| res_paths(res@).contains(p) ==> touchables@.contains(p),
        ids@.len() == 0 ==> (r matches Err(e) && e is UnresolvedError),
        r matches Err(e) ==> e is LibGitError || e is UnresolvedError,
{
    if ids.len() == 0 {
        return Err(Error::UnresolvedError);
    }
    let head = match find_commit(repo, ids[0]) {
        Ok(commit) => commit,
        Err(source) => return Err(Error::LibGitError { source }),
    };
    let latest = match commit_tree(&head) {
        Ok(tree) => tree,
        Err(source) => return Err(Error::LibGitError { source }),
    };
    let cands = match head_candidates(&latest, touchables) {
        Ok(cands) => cands,
        Err(e) => return Err(e),
    };
    let ghost start = cands@;
    let ghost mut history: Seq<CommitChanges> = Seq::empty();
    let mut pending = cands;
    let mut resolved: Vec<Resolution> = Vec::new();
    let mut k: usize = 0;
    while k < ids.len() && pending.len() > 0
        invariant
            k <= ids.len(),
            history.len() == k,
            pending@ == pending_after(start, history),
            resolved@ == resolutions(start, history),
        decreases ids.len() - k,
    {
        let commit = match find_commit(repo, ids[k]) {
            Ok(commit) => commit,
            Err(source) => return Err(Error::LibGitError { source }),
        };
        let changes = match commit_changes(repo, &commit) {
            Ok(changes) => changes,
            Err(e) => return Err(e),
        };
        resolve_commit(&mut pending, &changes.deltas, changes.time, &mut resolved);
        proof {
            let next = history.push(changes);
            assert(next.drop_last() =~= history);
            history = next;
        }
        k = k + 1;
    }
    proof {
        lemma_resolved_paths_distinct(start, history);
    }
    Ok(resolved)
}

/// `res` is what a walk of `n` commits makes of candidates with these
/// paths: the resolutions over the commits walked, which are all `n` of them
/// unless every candidate was attributed first.
pub open spec fn walked(paths: Seq<Seq<char>>, n: nat, res: Seq<Resolution>) -> bool {
    exists|cands: Seq<Candidate>, history: Seq<CommitChanges>|
        cand_paths(cands) == paths && res == resolutions(cands, history) && history.len() <= n && (
        history.len() == n || pending_after(cands, history).len() == 0)
}

/// Reads the first-parent history from HEAD and walks it as
/// [`walk_history`] does.
pub fn process_touchables(repo: &git2::Repository, touchables: &FileSet) -> (r: Result<Vec<Resolution>, Error>)
    ensures
        r matches Ok(res) ==> exists|n: nat| #[trigger] walked(touchables.entries(), n, res@),
        r matches Ok(res) ==> res_paths(res@).no_duplicates(),
        r matches Ok(res) ==> forall|p: Seq<char>| res_paths(res@).contains(p) ==> touchables@.contains(p),
        r matches Err(e) ==> e is LibGitError || e is UnresolvedError,
{
    match first_parent_history(repo) {
        Ok(ids) => {
            let r = walk_history(repo, &ids, touchables);
            proof {
                if let Ok(res) = &r {
                    assert(walked(touchables.entries(), ids@.len(), res@));
                }
            }
            r
        },
        Err(source) => Err(Error::LibGitError { source }),
    }
}

} // verus!
