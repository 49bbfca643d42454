//! Finding programs on the search path.

use vstd::prelude::*;
use crate::err::{Error, LookupError};

verus! {

/// `std::path::PathBuf`, carried through unread.
#[verifier::external_type_specification]
#[verifier::external_body]
pub struct ExPathBuf(std::path::PathBuf);

/// `which::which`: the path of the executable that `name` resolves to on the
/// search path of this process. The answer depends on the host, so nothing
/// is claimed of it.
#[verifier::external_body]
pub(crate) fn which_path(name: &str) -> (r: Result<std::path::PathBuf, LookupError>) {
    match which::which(name) {
        Ok(path) => Ok(path),
        Err(which::Error::CannotFindBinaryPath) => Err(LookupError::CannotFindBinaryPath),
        Err(which::Error::CannotGetCurrentDirAndPathListEmpty) => Err(
            LookupError::CannotGetCurrentDirAndPathListEmpty,
        ),
        Err(which::Error::CannotCanonicalize) => Err(LookupError::CannotCanonicalize),
    }
}

/// `Path::to_str`: the path as text where the path is Unicode, nothing where
/// it is not. A path is opaque here, so nothing is claimed of the text.
#[verifier::external_body]
pub(crate) fn path_text(path: &std::path::PathBuf) -> (r: Option<String>) {
    path.to_str().map(String::from)
}

/// What a lookup gave, as text: the path unchanged where it is text, else
/// the report that it is not.
pub fn lookup_as_text(found: Result<Option<String>, LookupError>) -> (out: Result<
    String,
    LookupError,
>)
    ensures
        out == match found {
            Ok(Some(text)) => Ok::<String, LookupError>(text),
            Ok(None) => Err::<String, LookupError>(LookupError::PathNotText),
            Err(e) => Err::<String, LookupError>(e),
        },
{
    match found {
        Ok(Some(text)) => Ok(text),
        Ok(None) => Err(LookupError::PathNotText),
        Err(e) => Err(e),
    }
}

/// The path of the executable that `name` resolves to on the search path of
/// this process, as text. The path is never altered: one that is not text is
/// reported.
pub(crate) fn find_program(name: &str) -> (out: Result<String, LookupError>) {
    match which_path(name) {
        Ok(path) => lookup_as_text(Ok(path_text(&path))),
        Err(e) => lookup_as_text(Err(e)),
    }
}

/// What a lookup means to the caller: the path, or the report that the
/// executable was not found.
pub fn lookup_outcome(found: Result<String, LookupError>) -> (out: Result<String, Error>)
    ensures
        match found {
            Ok(path) => out == Ok::<String, Error>(path),
            Err(e) => out == Err::<String, Error>(Error::ExecutablePathNotFound(e)),
        },
{
    match found {
        Ok(path) => Ok(path),
        Err(e) => Err(Error::ExecutablePathNotFound(e)),
    }
}

/// The path that the program `name` resolves to on the search path. The
/// lookup is made anew at every call.
pub fn resolve_program(name: &str) -> (out: Result<String, Error>)
    ensures
        out matches Err(e) ==> e is ExecutablePathNotFound,
{
    lookup_outcome(find_program(name))
}

} // verus!
