//! What the library needs of the platform's path conventions.

use vstd::prelude::*;

verus! {

/// Whether `c` can be the platform's main path separator.
pub open spec fn is_separator_char(c: char) -> bool {
    c == '/' || c == '\\'
}

/// The platform's main path separator, `std::path::MAIN_SEPARATOR`.
///
/// Trusted: std documents it as `/` on Unix and `\` on Windows; which of the
/// two depends on the platform the crate is built for, so no clause says which.
#[verifier::external_body]
pub fn main_separator() -> (c: char)
    ensures
        is_separator_char(c),
{
    std::path::MAIN_SEPARATOR
}

/// What `std::path::Path::file_name` returns for the path `p`.
pub uninterp spec fn spec_path_file_name(p: Seq<char>) -> Option<Seq<char>>;

/// The final component of the path `p`, `std::path::Path::file_name`, as text.
///
/// Trusted: the result is named `spec_path_file_name` of the path's characters;
/// std documents it as the final component, or `None` when the path ends in
/// `..`; the parsing rules are those of the platform the crate is built for, and
/// nothing more of them is stated. The path comes from a `&str`, so the lossy
/// conversion back to text changes nothing.
#[verifier::external_body]
pub fn path_file_name(p: &str) -> (r: Option<String>)
    ensures
        match r {
            Some(n) => spec_path_file_name(p@) == Some(n@),
            None => spec_path_file_name(p@) is None,
        },
{
    std::path::Path::new(p).file_name().map(|n| n.to_string_lossy().to_string())
}

/// What `std::path::Path::join` gives for the base `base` and the relative `name`.
pub uninterp spec fn spec_path_join(base: Seq<char>, name: Seq<char>) -> Seq<char>;

/// The path `base` joined with `name`, `std::path::Path::join`, as text.
///
/// Trusted: the result is named `spec_path_join` of the two paths' characters;
/// std documents that a relative `name` is appended to `base` after a
/// separator and an absolute one replaces it, by the rules of the platform the
/// crate is built for; nothing more of them is stated. Both paths come from
/// `&str`, so the lossy conversion back to text changes nothing.
#[verifier::external_body]
pub fn path_join(base: &str, name: &str) -> (r: String)
    ensures
        r@ == spec_path_join(base@, name@),
{
    std::path::Path::new(base).join(name).to_string_lossy().to_string()
}

} // verus!
