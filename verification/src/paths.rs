use vstd::prelude::*;

use std::path::Path;

verus! {

/// What `Path::extension` gives for a path: the part of the file name after
/// its last `.`, if the file name has one that is not its first character.
pub uninterp spec fn path_extension(path: Seq<char>) -> Option<Seq<char>>;

/// What `Path::file_stem` gives for a path: the file name without its
/// extension.
pub uninterp spec fn path_file_stem(path: Seq<char>) -> Option<Seq<char>>;

/// What `Path::file_name` gives for a path: its last component, unless
/// that component is `..`.
pub uninterp spec fn path_file_name(path: Seq<char>) -> Option<Seq<char>>;

/// What `Path::join` gives: `tail` appended to `base` as a further component.
pub uninterp spec fn path_join(base: Seq<char>, tail: Seq<char>) -> Seq<char>;

/// Calls `std::path::Path::extension` on `path`. The contract claims only
/// that the result is `path_extension` of the path, read as text (a
/// component of a `&str` path is valid UTF-8, so the text is never lost).
#[verifier::external_body]
pub(crate) fn extension_of(path: &str) -> (r: Option<String>)
    ensures
        match r {
            Some(e) => path_extension(path@) == Some(e@),
            None => path_extension(path@) == None::<Seq<char>>,
        },
{
    match Path::new(path).extension() {
        Some(e) => Some(e.to_string_lossy().into_owned()),
        None => None,
    }
}

/// Calls `std::path::Path::file_stem` on `path`. The contract claims only
/// that the result is `path_file_stem` of the path, read as text.
#[verifier::external_body]
pub(crate) fn file_stem_of(path: &str) -> (r: Option<String>)
    ensures
        match r {
            Some(e) => path_file_stem(path@) == Some(e@),
            None => path_file_stem(path@) == None::<Seq<char>>,
        },
{
    match Path::new(path).file_stem() {
        Some(e) => Some(e.to_string_lossy().into_owned()),
        None => None,
    }
}

/// Calls `std::path::Path::file_name` on `path`. The contract claims only
/// that the result is `path_file_name` of the path, read as text.
#[verifier::external_body]
pub(crate) fn file_name_of(path: &str) -> (r: Option<String>)
    ensures
        match r {
            Some(e) => path_file_name(path@) == Some(e@),
            None => path_file_name(path@) == None::<Seq<char>>,
        },
{
    match Path::new(path).file_name() {
        Some(e) => Some(e.to_string_lossy().into_owned()),
        None => None,
    }
}

/// Calls `std::path::Path::join` on `base` with `tail`. The contract claims
/// only that the result is `path_join` of the two, read as text.
#[verifier::external_body]
pub(crate) fn join_path(base: &str, tail: &str) -> (r: String)
    ensures
        r@ == path_join(base@, tail@),
{
    Path::new(base).join(tail).to_string_lossy().into_owned()
}

} // verus!
