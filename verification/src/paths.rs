//! Filesystem paths as values: `PathBuf` declared to the verifier, with the
//! one constructor the library uses.

use std::path::PathBuf;
use vstd::prelude::*;

verus! {

#[verifier::external_type_specification]
#[verifier::external_body]
pub struct ExPathBuf(PathBuf);

/// The text a path holds.
pub uninterp spec fn path_text(p: PathBuf) -> Seq<char>;

/// `PathBuf::from(String)`: the path holds the string's text, unchanged.
#[verifier::external_body]
pub(crate) fn path_from_string(s: String) -> (p: PathBuf)
    ensures
        path_text(p) == s@,
{
    PathBuf::from(s)
}

} // verus!
