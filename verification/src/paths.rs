//! Paths, held as text.
//!
//! The library never touches the file system, but it has to say where things
//! go. Paths are taken apart and put together by `std::path` and by the
//! `pathdiff` crate, after the path syntax of the platform that the crate is
//! built for. What they return is given a name here, and the rest of the
//! crate states its results over those names.
//!
//! A path that is handed in as text comes back as text: every component of a
//! result is a component of an argument, or `..`.

use std::path::Path;
use vstd::prelude::*;

verus! {

/// `base` extended by `rest`, as `Path::join` builds it.
pub uninterp spec fn joined(base: Seq<char>, rest: Seq<char>) -> Seq<char>;

/// `path` without its last component, as `Path::parent` gives it; `None`
/// where the path has none.
pub uninterp spec fn parent_of(path: Seq<char>) -> Option<Seq<char>>;

/// The relative path that leads from the directory `base` to `path`, as
/// `pathdiff::diff_paths` computes it; `None` where it finds none.
pub uninterp spec fn relative_to(path: Seq<char>, base: Seq<char>) -> Option<Seq<char>>;

/// `Path::join`: the result is a function of the two paths alone, named
/// [`joined`]. Nothing more is claimed of it.
#[verifier::external_body]
pub(crate) fn join(base: &str, rest: &str) -> (path: String)
    ensures
        path@ == joined(base@, rest@),
{
    Path::new(base).join(rest).to_string_lossy().into_owned()
}

/// `Path::parent`: whether there is a parent, and which, is a function of the
/// path alone, named [`parent_of`]. Nothing more is claimed of it.
#[verifier::external_body]
pub(crate) fn parent(path: &str) -> (folder: Option<String>)
    ensures
        match folder {
            Some(folder) => parent_of(path@) == Some(folder@),
            None => parent_of(path@) is None,
        },
{
    match Path::new(path).parent() {
        Some(folder) => Some(folder.to_string_lossy().into_owned()),
        None => None,
    }
}

/// `pathdiff::diff_paths`: whether a relative path is found, and which, is a
/// function of the two paths alone, named [`relative_to`]. Nothing more is
/// claimed of it.
#[verifier::external_body]
pub(crate) fn diff(path: &str, base: &str) -> (relative: Option<String>)
    ensures
        match relative {
            Some(relative) => relative_to(path@, base@) == Some(relative@),
            None => relative_to(path@, base@) is None,
        },
{
    match pathdiff::diff_paths(Path::new(path), Path::new(base)) {
        Some(relative) => Some(relative.to_string_lossy().into_owned()),
        None => None,
    }
}

} // verus!
