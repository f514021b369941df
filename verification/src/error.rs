//! Why a location could not be resolved.

use vstd::prelude::*;

verus! {

/// The ways in which resolving a location fails.
#[derive(Debug, Clone, Copy, PartialEq, Eq, Structural)]
pub enum Error {
    /// Nothing determines the location: the home directory or the user is
    /// unknown, or the operating system has no answer.
    NotFound,
    /// The runtime directory belongs to another user.
    PermissionDenied,
    /// The file system did not allow what the resolution needed.
    Io,
    /// A location type reached a rule that does not cover it.
    Unexpected,
}

/// The view of a resolved path or the error in its place.
pub open spec fn path_result(r: Result<String, Error>) -> Result<Seq<char>, Error> {
    match r {
        Ok(path) => Ok(path@),
        Err(e) => Err(e),
    }
}

/// The views of resolved paths or the error in their place.
pub open spec fn paths_result(r: Result<Vec<String>, Error>) -> Result<Seq<Seq<char>>, Error> {
    match r {
        Ok(paths) => Ok(crate::text::texts(paths@)),
        Err(e) => Err(e),
    }
}

/// The views of the paths that were found, if any were.
pub open spec fn found_paths(r: Option<Vec<String>>) -> Option<Seq<Seq<char>>> {
    match r {
        Some(paths) => Some(crate::text::texts(paths@)),
        None => None,
    }
}

/// The view of the path that a search came upon, if any, or the error in
/// its place.
pub open spec fn located_path(r: Result<Option<String>, Error>) -> Result<Option<Seq<char>>, Error> {
    match r {
        Ok(found) => Ok(crate::text::optional_text(found)),
        Err(e) => Err(e),
    }
}

/// The views of the paths that a search came upon, if any, or the error in
/// their place.
pub open spec fn located_paths(r: Result<Option<Vec<String>>, Error>) -> Result<
    Option<Seq<Seq<char>>>,
    Error,
> {
    match r {
        Ok(found) => Ok(found_paths(found)),
        Err(e) => Err(e),
    }
}

} // verus!
