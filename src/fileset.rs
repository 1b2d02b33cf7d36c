//! A set of repository-relative paths that keeps the order of insertion.
use vstd::prelude::*;

verus! {

/// Repository-relative paths, each held once.
#[derive(Debug)]
pub struct FileSet {
    paths: Vec<String>,
}

impl View for FileSet {
    type V = Set<Seq<char>>;

    open spec fn view(&self) -> Set<Seq<char>> {
        self.entries().to_set()
    }
}

impl FileSet {
    /// The paths in the order in which they were inserted.
    pub closed spec fn entries(self) -> Seq<Seq<char>> {
        self.paths@.map_values(|p: String| p@)
    }

    #[verifier::type_invariant]
    spec fn distinct(self) -> bool {
        self.entries().no_duplicates()
    }

    /// An empty set.
    pub fn new() -> (r: FileSet)
        ensures
            r.entries() == Seq::<Seq<char>>::empty(),
            r@ == Set::<Seq<char>>::empty(),
    {
        let r = FileSet { paths: Vec::new() };
        assert(r.entries() =~= Seq::<Seq<char>>::empty());
        assert(r@ =~= Set::<Seq<char>>::empty());
        r
    }

    /// Whether the set holds `path`.
    pub fn contains(&self, path: &String) -> (r: bool)
        ensures
            r == self@.contains(path@),
    {
        let mut i: usize = 0;
        while i < self.paths.len()
            invariant
                i <= self.paths.len(),
                forall|j: int| 0 <= j < i ==> self.entries()[j] != path@,
            decreases self.paths.len() - i,
        {
            if self.paths[i] == *path {
                assert(self.entries()[i as int] == path@);
                return true;
            }
            i = i + 1;
        }
        false
    }

    /// Adds `path`; returns whether it was absent. A new path goes last.
    pub fn insert(&mut self, path: String) -> (r: bool)
        ensures
            r == !old(self)@.contains(path@),
            final(self)@ == old(self)@.insert(path@),
            final(self).entries() == if r {
                old(self).entries().push(path@)
            } else {
                old(self).entries()
            },
    {
        proof {
            use_type_invariant(&*self);
        }
        if self.contains(&path) {
            assert(self@ =~= self@.insert(path@));
            false
        } else {
            let ghost before = self.entries();
            let mut taken = FileSet { paths: Vec::new() };
            assert(taken.entries() =~= Seq::<Seq<char>>::empty());
            core::mem::swap(self, &mut taken);
            let mut paths = taken.paths;
            paths.push(path);
            assert(paths@.map_values(|p: String| p@) =~= before.push(path@));
            *self = FileSet { paths };
            proof {
                broadcast use vstd::seq_lib::lemma_seq_contains_after_push;
                assert(self@ =~= old(self)@.insert(path@));
            }
            true
        }
    }

    /// The number of paths.
    pub fn len(&self) -> (r: usize)
        ensures
            r == self@.len(),
            r == self.entries().len(),
            self.entries().no_duplicates(),
    {
        proof {
            use_type_invariant(self);
            self.entries().unique_seq_to_set();
        }
        self.paths.len()
    }

    /// Whether the set is empty.
    pub fn is_empty(&self) -> (r: bool)
        ensures
            r == (self@.len() == 0),
    {
        self.len() == 0
    }

    /// The `i`-th path in the order of insertion.
    pub fn get(&self, i: usize) -> (r: &String)
        requires
            i < self.entries().len(),
        ensures
            r@ == self.entries()[i as int],
    {
        &self.paths[i]
    }

    /// A copy of the set.
    pub fn duplicate(&self) -> (r: FileSet)
        ensures
            r.entries() == self.entries(),
            r@ == self@,
    {
        let mut r = FileSet::new();
        let mut i: usize = 0;
        proof {
            use_type_invariant(self);
        }
        while i < self.paths.len()
            invariant
                i <= self.paths.len(),
                self.entries().no_duplicates(),
                r.entries() == self.entries().subrange(0, i as int),
            decreases self.paths.len() - i,
        {
            let p = self.paths[i].clone();
            assert(!r@.contains(p@)) by {
                if r.entries().contains(p@) {
                    let j = choose|j: int| 0 <= j < i && r.entries()[j] == p@;
                    assert(self.entries()[j] == self.entries()[i as int]);
                }
            }
            r.insert(p);
            assert(r.entries() =~= self.entries().subrange(0, i + 1));
            i = i + 1;
        }
        assert(self.entries().subrange(0, i as int) =~= self.entries());
        r
    }
}

/// Builds a set from a list of paths; a repeated path is kept once.
pub fn file_set_from(paths: Vec<String>) -> (r: FileSet)
    ensures
        r@ == paths@.map_values(|p: String| p@).to_set(),
{
    let mut r = FileSet::new();
    let mut i: usize = 0;
    let ghost views = paths@.map_values(|p: String| p@);
    while i < paths.len()
        invariant
            i <= paths.len(),
            views == paths@.map_values(|p: String| p@),
            r@ == views.subrange(0, i as int).to_set(),
        decreases paths.len() - i,
    {
        let p = paths[i].clone();
        r.insert(p);
        proof {
            let pre = views.subrange(0, i as int);
            assert(views.subrange(0, i + 1) =~= pre.push(views[i as int]));
            assert(pre.push(views[i as int]).to_set() =~= pre.to_set().insert(views[i as int])) by {
                broadcast use vstd::seq_lib::lemma_seq_contains_after_push;
            }
        }
        i = i + 1;
    }
    assert(views.subrange(0, i as int) =~= views);
    r
}

} // verus!
