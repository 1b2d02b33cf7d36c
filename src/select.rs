//! Which files a run considers: the explicitly requested paths, or the
//! files whose status the options admit, always within the head tree.
use vstd::prelude::*;
use vstd::string::StringExecFns;
use crate::error::Error;
use crate::fileset::FileSet;
use crate::git::{StatusItem, TreeItem};

verus! {

/// The path of a tree entry that is a file, with a UTF-8 name.
pub open spec fn file_path(item: TreeItem) -> Option<Seq<char>> {
    match item.name {
        Some(n) => if item.is_blob {
            Some(item.dir@ + n@)
        } else {
            None
        },
        None => None,
    }
}

/// The paths of the files among the entries of a tree walk.
pub open spec fn blob_paths(items: Seq<TreeItem>) -> Set<Seq<char>> {
    Set::new(|p: Seq<char>| exists|i: int| 0 <= i < items.len() && #[trigger] file_path(items[i]) == Some(p))
}

proof fn lemma_blob_paths_push(items: Seq<TreeItem>, x: TreeItem)
    ensures
        blob_paths(items.push(x)) == match file_path(x) {
            Some(p) => blob_paths(items).insert(p),
            None => blob_paths(items),
        },
{
    let ext = items.push(x);
    let want = match file_path(x) {
        Some(p) => blob_paths(items).insert(p),
        None => blob_paths(items),
    };
    assert forall|p: Seq<char>| blob_paths(ext).contains(p) <==> want.contains(p) by {
        if blob_paths(ext).contains(p) {
            let i = choose|i: int| 0 <= i < ext.len() && #[trigger] file_path(ext[i]) == Some(p);
            if i < items.len() {
                assert(file_path(items[i]) == Some(p));
            }
        }
        if blob_paths(items).contains(p) {
            let i = choose|i: int| 0 <= i < items.len() && #[trigger] file_path(items[i]) == Some(p);
            assert(file_path(ext[i]) == Some(p));
        }
        if file_path(x) == Some(p) {
            assert(file_path(ext[items.len() as int]) == Some(p));
        }
    }
    assert(blob_paths(ext) =~= want);
}

/// The paths of the files among the entries of a tree walk: a file's path
/// is the directory it sits under followed by its name.
pub fn head_file_paths(items: &Vec<TreeItem>) -> (r: FileSet)
    ensures
        r@ == blob_paths(items@),
{
    let mut r = FileSet::new();
    let mut i: usize = 0;
    while i < items.len()
        invariant
            i <= items.len(),
            r@ == blob_paths(items@.subrange(0, i as int)),
        decreases items.len() - i,
    {
        let item = &items[i];
        proof {
            lemma_blob_paths_push(items@.subrange(0, i as int), *item);
            assert(items@.subrange(0, i + 1) =~= items@.subrange(0, i as int).push(*item));
        }
        match &item.name {
            Some(name) => {
                if item.is_blob {
                    let path = item.dir.clone().concat(name.as_str());
                    r.insert(path);
                }
            },
            None => {},
        }
        i = i + 1;
    }
    assert(items@.subrange(0, i as int) =~= items@);
    r
}

/// How the status of a file compares the index and the working tree with
/// the head tree.
#[derive(Debug, Clone, Copy, PartialEq, Eq, Structural)]
pub enum StatusClass {
    /// The same in the head tree, the index and the working tree.
    Current,
    /// Modified in the index only.
    StagedChanges,
    /// Modified in the working tree only.
    LocalChanges,
    /// Modified in both the index and the working tree.
    StagedAndLocalChanges,
    /// Ignored by git.
    Ignored,
    /// Any other state: new, deleted, renamed, a type change, a conflict.
    Other { bits: u32 },
}

/// libgit2's status flag for a file modified in the index.
pub const INDEX_MODIFIED: u32 = 2;

/// libgit2's status flag for a file modified in the working tree.
pub const WT_MODIFIED: u32 = 256;

/// libgit2's status flag for an ignored file.
pub const IGNORED: u32 = 16384;

/// The class of a file with these status flags: no flag, exactly one of the
/// two modification flags or both, exactly the ignored flag, or other.
pub open spec fn spec_classify(bits: u32) -> StatusClass {
    if bits == 0 {
        StatusClass::Current
    } else if bits == INDEX_MODIFIED {
        StatusClass::StagedChanges
    } else if bits == WT_MODIFIED {
        StatusClass::LocalChanges
    } else if bits == INDEX_MODIFIED + WT_MODIFIED {
        StatusClass::StagedAndLocalChanges
    } else if bits == IGNORED {
        StatusClass::Ignored
    } else {
        StatusClass::Other { bits }
    }
}

/// Classifies a file by its libgit2 status flags.
pub fn classify(bits: u32) -> (r: StatusClass)
    ensures
        r == spec_classify(bits),
{
    if bits == 0 {
        StatusClass::Current
    } else if bits == INDEX_MODIFIED {
        StatusClass::StagedChanges
    } else if bits == WT_MODIFIED {
        StatusClass::LocalChanges
    } else if bits == INDEX_MODIFIED + WT_MODIFIED {
        StatusClass::StagedAndLocalChanges
    } else if bits == IGNORED {
        StatusClass::Ignored
    } else {
        StatusClass::Other { bits }
    }
}

/// Unmodified files always qualify; modified ones only with `dirty`; ignored
/// ones only with `ignored`; any other state never.
pub open spec fn spec_admits(class: StatusClass, dirty: bool, ignored: bool) -> bool {
    match class {
        StatusClass::Current => true,
        StatusClass::StagedChanges => dirty,
        StatusClass::LocalChanges => dirty,
        StatusClass::StagedAndLocalChanges => dirty,
        StatusClass::Ignored => ignored,
        StatusClass::Other { .. } => false,
    }
}

/// Whether a file of this class is a candidate under these flags.
pub fn admits(class: StatusClass, dirty: bool, ignored: bool) -> (r: bool)
    ensures
        r == spec_admits(class, dirty, ignored),
{
    match class {
        StatusClass::Current => true,
        StatusClass::StagedChanges => dirty,
        StatusClass::LocalChanges => dirty,
        StatusClass::StagedAndLocalChanges => dirty,
        StatusClass::Ignored => ignored,
        StatusClass::Other { .. } => false,
    }
}

/// A file left out because of its status.
#[derive(Debug)]
pub struct Skipped {
    pub path: String,
    pub class: StatusClass,
}

/// The path of a status entry, where it is UTF-8.
pub open spec fn status_path(item: StatusItem) -> Option<Seq<char>> {
    match item.path {
        Some(s) => Some(s@),
        None => None,
    }
}

/// Whether the flags admit a status entry.
pub open spec fn entry_admitted(item: StatusItem, dirty: bool, ignored: bool) -> bool {
    spec_admits(spec_classify(item.bits), dirty, ignored)
}

/// The paths of the status entries that the flags admit.
pub open spec fn admitted_paths(items: Seq<StatusItem>, dirty: bool, ignored: bool) -> Set<Seq<char>> {
    Set::new(
        |p: Seq<char>|
            exists|i: int|
                0 <= i < items.len() && #[trigger] status_path(items[i]) == Some(p) && entry_admitted(
                    items[i],
                    dirty,
                    ignored,
                ),
    )
}

/// A skipped file stands in the status with its class, and the flags do not
/// admit it.
pub open spec fn skip_justified(items: Seq<StatusItem>, s: Skipped, dirty: bool, ignored: bool) -> bool {
    exists|i: int|
        0 <= i < items.len() && #[trigger] status_path(items[i]) == Some(s.path@) && s.class
            == spec_classify(items[i].bits) && !entry_admitted(items[i], dirty, ignored)
}

proof fn lemma_admitted_push(items: Seq<StatusItem>, x: StatusItem, dirty: bool, ignored: bool)
    ensures
        admitted_paths(items.push(x), dirty, ignored) == match status_path(x) {
            Some(p) => if entry_admitted(x, dirty, ignored) {
                admitted_paths(items, dirty, ignored).insert(p)
            } else {
                admitted_paths(items, dirty, ignored)
            },
            None => admitted_paths(items, dirty, ignored),
        },
        forall|s: Skipped|
            skip_justified(items, s, dirty, ignored) ==> #[trigger] skip_justified(
                items.push(x),
                s,
                dirty,
                ignored,
            ),
{
    let ext = items.push(x);
    let want = match status_path(x) {
        Some(p) => if entry_admitted(x, dirty, ignored) {
            admitted_paths(items, dirty, ignored).insert(p)
        } else {
            admitted_paths(items, dirty, ignored)
        },
        None => admitted_paths(items, dirty, ignored),
    };
    assert forall|p: Seq<char>| admitted_paths(ext, dirty, ignored).contains(p) <==> want.contains(p) by {
        if admitted_paths(ext, dirty, ignored).contains(p) {
            let i = choose|i: int|
                0 <= i < ext.len() && #[trigger] status_path(ext[i]) == Some(p) && entry_admitted(
                    ext[i],
                    dirty,
                    ignored,
                );
            if i < items.len() {
                assert(status_path(items[i]) == Some(p));
            }
        }
        if admitted_paths(items, dirty, ignored).contains(p) {
            let i = choose|i: int|
                0 <= i < items.len() && #[trigger] status_path(items[i]) == Some(p) && entry_admitted(
                    items[i],
                    dirty,
                    ignored,
                );
            assert(status_path(ext[i]) == Some(p));
        }
        if status_path(x) == Some(p) && entry_admitted(x, dirty, ignored) {
            assert(status_path(ext[items.len() as int]) == Some(p));
        }
    }
    assert(admitted_paths(ext, dirty, ignored) =~= want);
    assert forall|s: Skipped| skip_justified(items, s, dirty, ignored) implies #[trigger] skip_justified(
        ext,
        s,
        dirty,
        ignored,
    ) by {
        let i = choose|i: int|
            0 <= i < items.len() && #[trigger] status_path(items[i]) == Some(s.path@) && s.class
                == spec_classify(items[i].bits) && !entry_admitted(items[i], dirty, ignored);
        assert(status_path(ext[i]) == Some(s.path@));
    }
}

/// The candidates that the status admits, with the files it skips.
#[derive(Debug)]
pub struct Selection {
    pub candidates: FileSet,
    pub skipped: Vec<Skipped>,
}

/// Picks, from the status of the working tree, the files that the flags
/// admit; fails where an entry's path is not UTF-8.
pub fn select_by_status(items: &Vec<StatusItem>, dirty: bool, ignored: bool) -> (r: Result<Selection, Error>)
    ensures
        r is Err <==> exists|i: int| 0 <= i < items@.len() && (#[trigger] items@[i]).path is None,
        r matches Err(e) ==> e is UnresolvedError,
        r matches Ok(s) ==> s.candidates@ == admitted_paths(items@, dirty, ignored),
        r matches Ok(s) ==> forall|k: int|
            0 <= k < s.skipped@.len() ==> skip_justified(items@, #[trigger] s.skipped@[k], dirty, ignored),
{
    let mut candidates = FileSet::new();
    let mut skipped: Vec<Skipped> = Vec::new();
    let mut i: usize = 0;
    while i < items.len()
        invariant
            i <= items.len(),
            forall|j: int| 0 <= j < i ==> (#[trigger] items@[j]).path is Some,
            candidates@ == admitted_paths(items@.subrange(0, i as int), dirty, ignored),
            forall|k: int|
                0 <= k < skipped@.len() ==> skip_justified(
                    items@.subrange(0, i as int),
                    #[trigger] skipped@[k],
                    dirty,
                    ignored,
                ),
        decreases items.len() - i,
    {
        let item = &items[i];
        let ghost pre = items@.subrange(0, i as int);
        proof {
            lemma_admitted_push(pre, *item, dirty, ignored);
            assert(items@.subrange(0, i + 1) =~= pre.push(*item));
        }
        match &item.path {
            Some(path) => {
                let class = classify(item.bits);
                if admits(class, dirty, ignored) {
                    candidates.insert(path.clone());
                } else {
                    let ghost k = skipped@.len();
                    skipped.push(Skipped { path: path.clone(), class });
                    assert(status_path(pre.push(*item)[i as int]) == Some(skipped@[k as int].path@));
                    assert(skip_justified(pre.push(*item), skipped@[k as int], dirty, ignored));
                }
            },
            None => {
                assert(items@[i as int].path is None);
                return Err(Error::UnresolvedError);
            },
        }
        i = i + 1;
    }
    assert(items@.subrange(0, i as int) =~= items@);
    Ok(Selection { candidates, skipped })
}

/// The paths that both sets hold, in the order of `a`.
pub fn intersect(a: &FileSet, b: &FileSet) -> (r: FileSet)
    ensures
        r@ == a@.intersect(b@),
{
    let mut r = FileSet::new();
    let mut i: usize = 0;
    let n = a.len();
    while i < n
        invariant
            i <= n,
            n == a.entries().len(),
            r@ == a.entries().subrange(0, i as int).to_set().intersect(b@),
        decreases n - i,
    {
        let p = a.get(i);
        let ghost pre = a.entries().subrange(0, i as int);
        proof {
            assert(a.entries().subrange(0, i + 1) =~= pre.push(p@));
            broadcast use vstd::seq_lib::lemma_seq_contains_after_push;
            assert(pre.push(p@).to_set() =~= pre.to_set().insert(p@));
        }
        if b.contains(p) {
            r.insert(p.clone());
        }
        assert(r@ =~= pre.push(p@).to_set().intersect(b@));
        i = i + 1;
    }
    assert(a.entries().subrange(0, i as int) =~= a.entries());
    r
}

/// Checks explicitly requested paths against the paths of the head tree:
/// where all are there, they are the files to consider; otherwise the
/// error lists every one that is not.
pub fn select_explicit(head: &FileSet, requested: &FileSet) -> (r: Result<FileSet, Error>)
    ensures
        r is Ok <==> requested@.subset_of(head@),
        r matches Ok(s) ==> s@ == head@.intersect(requested@),
        r matches Err(e) ==> e matches Error::PathNotTracked { paths } && paths@.map_values(
            |p: String| p@,
        ).to_set() == requested@.difference(head@),
{
    let mut missing: Vec<String> = Vec::new();
    let mut i: usize = 0;
    let n = requested.len();
    while i < n
        invariant
            i <= n,
            n == requested.entries().len(),
            missing@.map_values(|p: String| p@).to_set() == requested.entries().subrange(
                0,
                i as int,
            ).to_set().difference(head@),
        decreases n - i,
    {
        let p = requested.get(i);
        let ghost pre = requested.entries().subrange(0, i as int);
        let ghost before = missing@;
        proof {
            assert(requested.entries().subrange(0, i + 1) =~= pre.push(p@));
            broadcast use vstd::seq_lib::lemma_seq_contains_after_push;
            assert(pre.push(p@).to_set() =~= pre.to_set().insert(p@));
        }
        if !head.contains(p) {
            missing.push(p.clone());
            proof {
                broadcast use vstd::seq_lib::lemma_seq_contains_after_push;
                assert(missing@.map_values(|p: String| p@) =~= before.map_values(|p: String| p@).push(p@));
                assert(missing@.map_values(|p: String| p@).to_set() =~= before.map_values(
                    |p: String| p@,
                ).to_set().insert(p@));
            }
        }
        assert(missing@.map_values(|p: String| p@).to_set() =~= pre.push(p@).to_set().difference(head@));
        i = i + 1;
    }
    assert(requested.entries().subrange(0, i as int) =~= requested.entries());
    if missing.len() > 0 {
        proof {
            let q = missing@.map_values(|p: String| p@)[0];
            assert(missing@.map_values(|p: String| p@).to_set().contains(q));
        }
        Err(Error::PathNotTracked { paths: missing })
    } else {
        proof {
            assert(missing@.map_values(|p: String| p@).to_set() =~= Set::<Seq<char>>::empty());
            assert forall|p: Seq<char>| requested@.contains(p) implies head@.contains(p) by {
                assert(!requested@.difference(head@).contains(p));
            }
        }
        Ok(intersect(head, requested))
    }
}

} // verus!
