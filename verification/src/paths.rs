//! Operations on paths held as text.
//!
//! The library keeps file-system paths as `String`s. Joining is written
//! here; what `Path` computes on them otherwise (parent, last component,
//! comparison) is named here and obtained by calling `std::path`.
use vstd::prelude::*;

use std::path::Path;

use crate::text::{chars_of, split_on};

verus! {

/// `child` joined onto `base` as a path: an absolute `child` (one that
/// starts with `/`) replaces `base`; otherwise `child` follows `base`, with
/// a `/` between them unless `base` is empty or already ends with one.
pub open spec fn spec_path_join(base: Seq<char>, child: Seq<char>) -> Seq<char> {
    if child.len() > 0 && child[0] == '/' {
        child
    } else if base.len() == 0 || base[base.len() - 1] == '/' {
        base + child
    } else {
        base + seq!['/'] + child
    }
}

/// What `Path::new(p).parent()` yields, as text.
pub uninterp spec fn spec_path_parent(p: Seq<char>) -> Option<Seq<char>>;

/// What `Path::new(p).ends_with(child)` yields.
pub uninterp spec fn spec_path_ends_with(p: Seq<char>, child: Seq<char>) -> bool;

/// What `Path::new(p).file_name()` yields, as text.
pub uninterp spec fn spec_file_name(p: Seq<char>) -> Option<Seq<char>>;

/// The components of a path, as the documentation of `Path::components`
/// describes them on Unix: whether the path starts at the root, whether it
/// starts with a `.` component, and its other pieces between `/`s. Repeated
/// separators, a trailing `/` and every other `.` are normalized away.
pub closed spec fn path_components(p: Seq<char>) -> (bool, bool, Seq<Seq<char>>) {
    let root = p.len() > 0 && p[0] == '/';
    let cur_dir = !root && p.len() > 0 && p[0] == '.' && (p.len() == 1 || p[1] == '/');
    (root, cur_dir, split_on(p, '/').filter(|c: Seq<char>| c.len() > 0 && c != seq!['.']))
}

/// Whether `a` and `b` name the same path: `Path`'s `==` compares the
/// paths' components.
pub open spec fn spec_path_eq(a: Seq<char>, b: Seq<char>) -> bool {
    path_components(a) == path_components(b)
}

/// The views of an optional string.
pub open spec fn opt_view(o: Option<String>) -> Option<Seq<char>> {
    match o {
        Some(s) => Some(s@),
        None => None,
    }
}

/// Joins `child` onto `base`, as `Path::join` does on Unix.
pub(crate) fn path_join(base: &str, child: &str) -> (r: String)
    ensures
        r@ == spec_path_join(base@, child@),
{
    let c = chars_of(child);
    if c.len() > 0 && c[0] == '/' {
        return String::from_str(child);
    }
    let b = chars_of(base);
    let mut r = String::from_str(base);
    if b.len() > 0 && b[b.len() - 1] != '/' {
        let sep = "/";
        proof {
            reveal_strlit("/");
        }
        r.append(sep);
    }
    r.append(child);
    r
}

/// Whether `a` and `b` name the same path, with `Path`'s `==`, which
/// compares the paths component by component (so `a//b`, `a/./b`, `a/b/`
/// and `a/b` are the same path, and `./a` is not `a`).
///
/// Claimed of std: the result is the comparison of the components that
/// the documentation of `Path::components` describes.
#[verifier::external_body]
pub(crate) fn path_eq(a: &str, b: &str) -> (r: bool)
    ensures
        r == spec_path_eq(a@, b@),
{
    Path::new(a) == Path::new(b)
}

/// The parent of `p`, with `Path::parent`.
///
/// Claimed of std: the result is a function of the text.
#[verifier::external_body]
pub(crate) fn path_parent(p: &str) -> (r: Option<String>)
    ensures
        opt_view(r) == spec_path_parent(p@),
{
    Path::new(p).parent().map(|q| q.to_string_lossy().into_owned())
}

/// Whether the last components of `p` are those of `child`, with
/// `Path::ends_with`.
///
/// Claimed of std: the result is a function of the two texts.
#[verifier::external_body]
pub(crate) fn path_ends_with(p: &str, child: &str) -> (r: bool)
    ensures
        r == spec_path_ends_with(p@, child@),
{
    Path::new(p).ends_with(child)
}

/// The last component of `p`, with `Path::file_name`.
///
/// Claimed of std: the result is a function of the text.
#[verifier::external_body]
pub(crate) fn path_file_name(p: &str) -> (r: Option<String>)
    ensures
        opt_view(r) == spec_file_name(p@),
{
    Path::new(p).file_name().map(|q| q.to_string_lossy().into_owned())
}

/// The user's home directory, with `dirs::home_dir`. It depends on the
/// environment: nothing is claimed of it.
#[verifier::external_body]
pub(crate) fn home_dir_text() -> (r: Option<String>) {
    dirs::home_dir().map(|p| p.to_string_lossy().into_owned())
}

/// The platform configuration directory, with `dirs::config_dir`. It
/// depends on the environment: nothing is claimed of it.
#[verifier::external_body]
pub(crate) fn config_dir_text() -> (r: Option<String>) {
    dirs::config_dir().map(|p| p.to_string_lossy().into_owned())
}

/// The platform data directory, with `dirs::data_dir`. It depends on the
/// environment: nothing is claimed of it.
#[verifier::external_body]
pub(crate) fn data_dir_text() -> (r: Option<String>) {
    dirs::data_dir().map(|p| p.to_string_lossy().into_owned())
}

} // verus!
