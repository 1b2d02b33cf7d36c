//! The errors of this library.
use vstd::prelude::*;
use vstd::string::StringExecFns;
use crate::git::git_error_text;
use git2::Error as GitError;
use std::io::Error as IoFailure;

verus! {

#[verifier::external_type_specification]
#[verifier::external_body]
pub struct ExIoError(IoFailure);

/// Why an operation failed.
#[derive(Debug)]
#[allow(inconsistent_fields)]
pub enum Error {
    /// Reading or writing a file's metadata failed.
    IoError { source: IoFailure },
    /// The repository could not be opened, or reading its history, a tree,
    /// its status or a diff failed.
    LibGitError { source: GitError },
    /// Explicitly requested paths that the head tree does not hold, all of them.
    PathNotTracked { paths: Vec<String> },
    /// The current directory lies outside the repository's working directory.
    PathError,
    /// A path is not valid UTF-8.
    PathEncodingError,
    /// Something the operation needs is missing: a path in the status, a
    /// working directory, a regular file in the head tree.
    UnresolvedError,
}

/// Relies on the `Display` impl of `std::io::Error`: its message.
#[verifier::external_body]
fn io_error_text(e: &IoFailure) -> (r: String) {
    e.to_string()
}

/// The paths, each in double quotes, separated by `, ` and within braces.
pub open spec fn quoted_list(paths: Seq<String>) -> Seq<char>
    decreases paths.len(),
{
    if paths.len() == 0 {
        seq!['{', '}']
    } else {
        let inner = quoted_items(paths);
        seq!['{'] + inner + seq!['}']
    }
}

/// The items of `quoted_list` without the braces.
pub open spec fn quoted_items(paths: Seq<String>) -> Seq<char>
    decreases paths.len(),
{
    if paths.len() == 0 {
        Seq::empty()
    } else if paths.len() == 1 {
        seq!['"'] + paths[0]@ + seq!['"']
    } else {
        quoted_items(paths.drop_last()) + seq![',', ' ', '"'] + paths.last()@ + seq!['"']
    }
}

/// Renders a list of paths as `quoted_list` describes.
pub fn render_paths(paths: &Vec<String>) -> (r: String)
    ensures
        r@ == quoted_list(paths@),
{
    let mut inner = String::new();
    let mut i: usize = 0;
    while i < paths.len()
        invariant
            i <= paths.len(),
            inner@ == quoted_items(paths@.subrange(0, i as int)),
        decreases paths.len() - i,
    {
        proof {
            reveal_strlit("\"");
            reveal_strlit(", \"");
            assert(paths@.subrange(0, i + 1).drop_last() =~= paths@.subrange(0, i as int));
        }
        if i == 0 {
            inner = inner.concat("\"");
            assert(inner@ =~= seq!['"']);
        } else {
            inner = inner.concat(", \"");
        }
        inner = inner.concat(paths[i].as_str());
        inner = inner.concat("\"");
        assert(inner@ =~= quoted_items(paths@.subrange(0, i + 1)));
        i = i + 1;
    }
    assert(paths@.subrange(0, i as int) =~= paths@);
    let r = String::from_str("{").concat(inner.as_str()).concat("}");
    proof {
        reveal_strlit("{");
        reveal_strlit("}");
        assert(r@ =~= quoted_list(paths@));
    }
    r
}

impl Error {
    /// A message that describes the error for a person.
    pub fn message(&self) -> (r: String)
        ensures
            self matches Error::PathNotTracked { paths } ==> r@ == "Paths "@ + quoted_list(paths@)
                + " are not tracked in the repository."@,
            self is PathError ==> r@ == "Cannot remove prefix from path"@,
            self is PathEncodingError ==> r@ == "Path contains invalid Unicode"@,
            self is UnresolvedError ==> r@ == "UnresolvedError"@,
    {
        match self {
            Error::IoError { source } => String::from_str("std::io::Error ").concat(
                io_error_text(source).as_str(),
            ),
            Error::LibGitError { source } => String::from_str("git2::Error ").concat(
                git_error_text(source).as_str(),
            ),
            Error::PathNotTracked { paths } => String::from_str("Paths ").concat(
                render_paths(paths).as_str(),
            ).concat(" are not tracked in the repository."),
            Error::PathError => String::from_str("Cannot remove prefix from path"),
            Error::PathEncodingError => String::from_str("Path contains invalid Unicode"),
            Error::UnresolvedError => String::from_str("UnresolvedError"),
        }
    }
}

} // verus!
