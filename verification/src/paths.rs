//! Path operations of `std::path::Path` on paths held as strings.
//!
//! Paths follow the separator rules of the platform the library is built for;
//! for a given build, what these operations return is a function of their
//! arguments alone, named here. A path built from a `&str` is valid UTF-8, and
//! so is every part taken from it or joined to it, so the string form of each
//! result always exists.

use vstd::prelude::*;

verus! {

/// Name of the final component of a path without its extension (`Path::file_stem`).
pub uninterp spec fn path_file_stem(path: Seq<char>) -> Option<Seq<char>>;

/// Name of the final component of a path (`Path::file_name`).
pub uninterp spec fn path_file_name(path: Seq<char>) -> Option<Seq<char>>;

/// The extension of the final component of a path (`Path::extension`).
pub uninterp spec fn path_extension(path: Seq<char>) -> Option<Seq<char>>;

/// `base` joined with `rest` (`Path::join`).
pub uninterp spec fn path_join(base: Seq<char>, rest: Seq<char>) -> Seq<char>;

/// `path` relative to `base`, where `base` is a prefix of it by components
/// (`Path::strip_prefix`).
pub uninterp spec fn path_strip_prefix(path: Seq<char>, base: Seq<char>) -> Option<Seq<char>>;

/// `Path::file_stem`; the result is named by `path_file_stem`.
#[verifier::external_body]
pub(crate) fn file_stem_of(path: &str) -> (r: Option<String>)
    ensures
        match r {
            Some(s) => path_file_stem(path@) == Some(s@),
            None => path_file_stem(path@).is_none(),
        },
{
    std::path::Path::new(path).file_stem().and_then(|s| s.to_str()).map(|s| s.to_string())
}

/// `Path::file_name`; the result is named by `path_file_name`.
#[verifier::external_body]
pub(crate) fn file_name_of(path: &str) -> (r: Option<String>)
    ensures
        match r {
            Some(s) => path_file_name(path@) == Some(s@),
            None => path_file_name(path@).is_none(),
        },
{
    std::path::Path::new(path).file_name().and_then(|s| s.to_str()).map(|s| s.to_string())
}

/// `Path::extension`; the result is named by `path_extension`.
#[verifier::external_body]
pub(crate) fn extension_of(path: &str) -> (r: Option<String>)
    ensures
        match r {
            Some(s) => path_extension(path@) == Some(s@),
            None => path_extension(path@).is_none(),
        },
{
    std::path::Path::new(path).extension().and_then(|s| s.to_str()).map(|s| s.to_string())
}

/// `Path::join`; the result is named by `path_join`.
#[verifier::external_body]
pub(crate) fn join_of(base: &str, rest: &str) -> (r: String)
    ensures
        r@ == path_join(base@, rest@),
{
    std::path::Path::new(base).join(rest).to_string_lossy().into_owned()
}

/// `Path::strip_prefix`, with `Err` taken as `None`; the result is named by
/// `path_strip_prefix`.
#[verifier::external_body]
pub(crate) fn strip_prefix_of(path: &str, base: &str) -> (r: Option<String>)
    ensures
        match r {
            Some(s) => path_strip_prefix(path@, base@) == Some(s@),
            None => path_strip_prefix(path@, base@).is_none(),
        },
{
    std::path::Path::new(path).strip_prefix(base).ok().and_then(|p| p.to_str()).map(|s| s.to_string())
}

} // verus!
