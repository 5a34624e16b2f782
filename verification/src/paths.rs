//! Path arithmetic on paths held as strings, done by `std::path` for the target the
//! library is built for. What each call returns is named, not spelled out: it
//! depends on the path syntax of that target (separators, prefixes, `..`).

use vstd::prelude::*;

verus! {

/// `Path::join`: `part` adjoined to `base`.
pub uninterp spec fn joined_path(base: Seq<char>, part: Seq<char>) -> Seq<char>;

/// `Path::file_name`: the final component, if there is one.
pub uninterp spec fn file_name_of(path: Seq<char>) -> Option<Seq<char>>;

/// `Path::file_prefix`: the final component up to its first `.` (a leading dot
/// does not count), if there is a final component.
pub uninterp spec fn file_prefix_of(path: Seq<char>) -> Option<Seq<char>>;

/// `Path::extension`: the final component after its last `.`, if there is one.
pub uninterp spec fn extension_of(path: Seq<char>) -> Option<Seq<char>>;

/// `Path::parent`: the path without its final component, if there is one.
pub uninterp spec fn parent_of(path: Seq<char>) -> Option<Seq<char>>;

/// Calls `Path::join`. Trusted: the result is a function of the two strings,
/// named `joined_path`; the path joined from two UTF-8 strings is read back
/// whole by `to_string_lossy`.
#[verifier::external_body]
pub(crate) fn join(base: &str, part: &str) -> (r: String)
    ensures
        r@ == joined_path(base@, part@),
{
    std::path::Path::new(base).join(part).to_string_lossy().into_owned()
}

/// Calls `Path::file_name`. Trusted: the result is a function of the path,
/// named `file_name_of`.
#[verifier::external_body]
pub(crate) fn file_name(path: &str) -> (r: Option<String>)
    ensures
        match r {
            Some(s) => file_name_of(path@) == Some(s@),
            None => file_name_of(path@) is None,
        },
{
    match std::path::Path::new(path).file_name() {
        Some(n) => Some(n.to_string_lossy().into_owned()),
        None => None,
    }
}

/// Calls `Path::file_prefix`. Trusted: the result is a function of the path,
/// named `file_prefix_of`.
#[verifier::external_body]
pub(crate) fn file_prefix(path: &str) -> (r: Option<String>)
    ensures
        match r {
            Some(s) => file_prefix_of(path@) == Some(s@),
            None => file_prefix_of(path@) is None,
        },
{
    match std::path::Path::new(path).file_prefix() {
        Some(n) => Some(n.to_string_lossy().into_owned()),
        None => None,
    }
}

/// Calls `Path::extension`. Trusted: the result is a function of the path,
/// named `extension_of`.
#[verifier::external_body]
pub(crate) fn extension(path: &str) -> (r: Option<String>)
    ensures
        match r {
            Some(s) => extension_of(path@) == Some(s@),
            None => extension_of(path@) is None,
        },
{
    match std::path::Path::new(path).extension() {
        Some(n) => Some(n.to_string_lossy().into_owned()),
        None => None,
    }
}

/// Calls `Path::parent`. Trusted: the result is a function of the path, named
/// `parent_of`.
#[verifier::external_body]
pub(crate) fn parent(path: &str) -> (r: Option<String>)
    ensures
        match r {
            Some(s) => parent_of(path@) == Some(s@),
            None => parent_of(path@) is None,
        },
{
    match std::path::Path::new(path).parent() {
        Some(n) => Some(n.to_string_lossy().into_owned()),
        None => None,
    }
}

/// The text of an optional path component, or the empty string.
pub open spec fn or_empty(o: Option<Seq<char>>) -> Seq<char> {
    match o {
        Some(s) => s,
        None => Seq::empty(),
    }
}

} // verus!
