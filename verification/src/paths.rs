//! File-name parts of paths, as `std::path::Path` splits them on this platform.
//!
//! The split follows the separators of the target the crate is built for (`/` on Unix,
//! also `\` and drive prefixes on Windows), so the names below stand for the target's
//! `Path` functions: the same text gives the same parts on every build for one target.
use vstd::prelude::*;

verus! {

/// `Path::file_stem` of `p`: the file name without its last extension.
pub uninterp spec fn file_stem_of(p: Seq<char>) -> Option<Seq<char>>;

/// `Path::extension` of `p`: what follows the last `.` of the file name.
pub uninterp spec fn extension_of(p: Seq<char>) -> Option<Seq<char>>;

/// `Path::file_name` of `p`: the last component.
pub uninterp spec fn file_name_of(p: Seq<char>) -> Option<Seq<char>>;

/// `Path::parent` of `p`: the path without its last component.
pub uninterp spec fn parent_of(p: Seq<char>) -> Option<Seq<char>>;

pub open spec fn opt_chars(o: Option<String>) -> Option<Seq<char>> {
    match o {
        Some(s) => Some(s@),
        None => None,
    }
}

/// `Path::new(p).file_stem()`, named `file_stem_of`; a part of a `&str` path is itself
/// valid text, so the conversion back to `str` cannot fail.
#[verifier::external_body]
pub fn file_stem(p: &str) -> (r: Option<String>)
    ensures
        opt_chars(r) == file_stem_of(p@),
{
    std::path::Path::new(p).file_stem().and_then(|s| s.to_str()).map(|s| s.to_string())
}

/// `Path::new(p).extension()`, named `extension_of`.
#[verifier::external_body]
pub fn extension(p: &str) -> (r: Option<String>)
    ensures
        opt_chars(r) == extension_of(p@),
{
    std::path::Path::new(p).extension().and_then(|s| s.to_str()).map(|s| s.to_string())
}

/// `Path::new(p).file_name()`, named `file_name_of`.
#[verifier::external_body]
pub fn file_name(p: &str) -> (r: Option<String>)
    ensures
        opt_chars(r) == file_name_of(p@),
{
    std::path::Path::new(p).file_name().and_then(|s| s.to_str()).map(|s| s.to_string())
}

/// `Path::new(p).parent()`, named `parent_of`.
#[verifier::external_body]
pub fn parent(p: &str) -> (r: Option<String>)
    ensures
        opt_chars(r) == parent_of(p@),
{
    std::path::Path::new(p).parent().and_then(|s| s.to_str()).map(|s| s.to_string())
}

} // verus!
