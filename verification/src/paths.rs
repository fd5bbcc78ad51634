//! The parts of a file path, as the standard library tells them apart.

use vstd::prelude::*;

verus! {

/// The last component of a path, if it has one, as the standard library
/// reads the path.
pub uninterp spec fn path_file_name_of(path: Seq<char>) -> Option<Seq<char>>;

/// The last component of a path without its extension, if the path has a
/// last component, as the standard library reads the path.
pub uninterp spec fn path_file_stem_of(path: Seq<char>) -> Option<Seq<char>>;

/// A name as a plain value, if there is one.
pub open spec fn name_view(name: Option<String>) -> Option<Seq<char>> {
    match name {
        Some(s) => Some(s@),
        None => None,
    }
}

/// The last component of `path`, by `std::path::Path::file_name`. The result
/// is only given a name: it is read off the path alone, and which part of
/// the path it is follows the rules for separators of the system that the
/// library is built for. It is absent where the path ends in `..` or has no
/// component.
#[verifier::external_body]
pub(crate) fn path_file_name(path: &str) -> (name: Option<String>)
    ensures
        name_view(name) == path_file_name_of(path@),
{
    match std::path::Path::new(path).file_name() {
        Some(name) => match name.to_str() {
            Some(text) => Some(text.to_owned()),
            None => None,
        },
        None => None,
    }
}

/// The last component of `path` without its extension, by
/// `std::path::Path::file_stem`. The result is only given a name: it is read
/// off the path alone.
#[verifier::external_body]
pub(crate) fn path_file_stem(path: &str) -> (stem: Option<String>)
    ensures
        name_view(stem) == path_file_stem_of(path@),
{
    match std::path::Path::new(path).file_stem() {
        Some(stem) => match stem.to_str() {
            Some(text) => Some(text.to_owned()),
            None => None,
        },
        None => None,
    }
}

} // verus!
