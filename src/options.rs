//! The configuration of one synchronisation run.
use vstd::prelude::*;
use crate::fileset::FileSet;

verus! {

/// Which files a run considers and how it treats them.
#[derive(Debug)]
pub struct Options {
    /// Paths to operate on instead of scanning the repository.
    pub paths: Option<FileSet>,
    /// Whether files with staged or local modifications are included.
    pub dirty: bool,
    /// Whether files that git ignores are included.
    pub ignored: bool,
    /// Whether files older than their history are left as they are.
    pub ignore_older: bool,
    /// Whether skipped and rewritten files are reported.
    pub verbose: bool,
}

/// A copy of an optional set of paths.
fn copy_paths(paths: &Option<FileSet>) -> (r: Option<FileSet>)
    ensures
        r matches Some(s) ==> paths matches Some(t) && s@ == t@ && s.entries() == t.entries(),
        r is None <==> paths is None,
{
    match paths {
        Some(s) => Some(s.duplicate()),
        None => None,
    }
}

impl Options {
    /// No explicit paths, and every flag off.
    pub fn new() -> (r: Options)
        ensures
            r.paths is None,
            !r.dirty,
            !r.ignored,
            !r.ignore_older,
            !r.verbose,
    {
        Options { paths: None, dirty: false, ignored: false, ignore_older: false, verbose: false }
    }

    /// These options with `dirty` set to `flag`.
    pub fn dirty(&self, flag: bool) -> (r: Options)
        ensures
            r.dirty == flag,
            r.ignored == self.ignored,
            r.ignore_older == self.ignore_older,
            r.verbose == self.verbose,
            r.paths is None <==> self.paths is None,
            r.paths matches Some(s) ==> s@ == self.paths->0@,
    {
        Options {
            paths: copy_paths(&self.paths),
            dirty: flag,
            ignored: self.ignored,
            ignore_older: self.ignore_older,
            verbose: self.verbose,
        }
    }

    /// These options with `ignored` set to `flag`.
    pub fn ignored(&self, flag: bool) -> (r: Options)
        ensures
            r.dirty == self.dirty,
            r.ignored == flag,
            r.ignore_older == self.ignore_older,
            r.verbose == self.verbose,
            r.paths is None <==> self.paths is None,
            r.paths matches Some(s) ==> s@ == self.paths->0@,
    {
        Options {
            paths: copy_paths(&self.paths),
            dirty: self.dirty,
            ignored: flag,
            ignore_older: self.ignore_older,
            verbose: self.verbose,
        }
    }

    /// These options with `ignore_older` set to `flag`.
    pub fn ignore_older(&self, flag: bool) -> (r: Options)
        ensures
            r.dirty == self.dirty,
            r.ignored == self.ignored,
            r.ignore_older == flag,
            r.verbose == self.verbose,
            r.paths is None <==> self.paths is None,
            r.paths matches Some(s) ==> s@ == self.paths->0@,
    {
        Options {
            paths: copy_paths(&self.paths),
            dirty: self.dirty,
            ignored: self.ignored,
            ignore_older: flag,
            verbose: self.verbose,
        }
    }

    /// These options with `verbose` set to `flag`.
    pub fn verbose(&self, flag: bool) -> (r: Options)
        ensures
            r.dirty == self.dirty,
            r.ignored == self.ignored,
            r.ignore_older == self.ignore_older,
            r.verbose == flag,
            r.paths is None <==> self.paths is None,
            r.paths matches Some(s) ==> s@ == self.paths->0@,
    {
        Options {
            paths: copy_paths(&self.paths),
            dirty: self.dirty,
            ignored: self.ignored,
            ignore_older: self.ignore_older,
            verbose: flag,
        }
    }

    /// These options restricted to `input`, or scanning the repository where
    /// `input` is `None`.
    pub fn paths(&self, input: Option<FileSet>) -> (r: Options)
        ensures
            r.dirty == self.dirty,
            r.ignored == self.ignored,
            r.ignore_older == self.ignore_older,
            r.verbose == self.verbose,
            r.paths == input,
    {
        Options {
            paths: input,
            dirty: self.dirty,
            ignored: self.ignored,
            ignore_older: self.ignore_older,
            verbose: self.verbose,
        }
    }
}

impl Default for Options {
    fn default() -> (r: Options)
        ensures
            r.paths is None,
            !r.dirty,
            !r.ignored,
            !r.ignore_older,
            !r.verbose,
    {
        Options::new()
    }
}

} // verus!
