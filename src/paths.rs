//! Paths given relative to the current directory, made relative to the
//! root of the repository's working directory.
use vstd::prelude::*;
use crate::error::Error;

verus! {

/// What `camino::Utf8Path::strip_prefix` leaves of `path` once the leading
/// components `base` are removed, where `base` is a prefix of it.
pub uninterp spec fn stripped(path: Seq<char>, base: Seq<char>) -> Option<Seq<char>>;

/// What `camino::Utf8Path::join` makes of `base` followed by `path`.
pub uninterp spec fn joined(base: Seq<char>, path: Seq<char>) -> Seq<char>;

/// Relies on `camino::Utf8Path::strip_prefix`: `path` without the leading
/// components `base`, or `None` where `base` is not a prefix of it.
#[verifier::external_body]
fn strip_prefix(path: &String, base: &String) -> (r: Option<String>)
    ensures
        r matches Some(s) ==> stripped(path@, base@) == Some(s@),
        r is None <==> stripped(path@, base@) is None,
{
    camino::Utf8Path::new(path).strip_prefix(base).ok().map(|p| p.to_string())
}

/// Relies on `camino::Utf8Path::join`: `path` adjoined to `base`.
#[verifier::external_body]
fn join(base: &String, path: &String) -> (r: String)
    ensures
        r@ == joined(base@, path@),
{
    camino::Utf8Path::new(base).join(path).into_string()
}

/// Relies on `camino::Utf8Path::is_absolute`, which on Unix holds exactly of
/// the paths that start with the root `/`.
#[verifier::external_body]
fn is_absolute(path: &String) -> (r: bool)
    ensures
        r == (path@.len() > 0 && path@[0] == '/'),
{
    camino::Utf8Path::new(path).is_absolute()
}

/// Relies on `git2::Repository::workdir`: the root of the working directory,
/// `None` for a bare repository or one whose root is not UTF-8.
#[verifier::external_body]
fn workdir(repo: &git2::Repository) -> (r: Option<String>) {
    repo.workdir().and_then(|p| p.to_str()).map(String::from)
}

/// Makes `path`, given relative to the directory `cwd`, relative to the
/// working directory's root `root`; an absolute `path` is kept as it is.
/// Fails where `cwd` does not lie under `root`.
pub fn repo_relative_path(cwd: &String, root: &String, path: String) -> (r: Result<String, Error>)
    ensures
        stripped(cwd@, root@) is None <==> r is Err,
        r matches Err(e) ==> e is PathError,
        r matches Ok(s) ==> s@ == if path@.len() > 0 && path@[0] == '/' {
            path@
        } else {
            joined(stripped(cwd@, root@)->0, path@)
        },
{
    let prefix = match strip_prefix(cwd, root) {
        Some(prefix) => prefix,
        None => return Err(Error::PathError),
    };
    if is_absolute(&path) {
        Ok(path)
    } else {
        Ok(join(&prefix, &path))
    }
}

/// Makes `path`, given relative to the current directory `cwd`, relative to
/// the root of the repository's working directory.
pub fn resolve_repo_path(repo: &git2::Repository, cwd: &String, path: String) -> (r: Result<String, Error>)
    ensures
        r matches Err(e) ==> e is UnresolvedError || e is PathError,
        r matches Ok(s) ==> exists|root: Seq<char>|
            stripped(cwd@, root) is Some && s@ == if path@.len() > 0 && path@[0] == '/' {
                path@
            } else {
                joined(stripped(cwd@, root)->0, path@)
            },
{
    match workdir(repo) {
        Some(root) => repo_relative_path(cwd, &root, path),
        None => Err(Error::UnresolvedError),
    }
}

} // verus!
