//! Calls into the `regex` crate for the textual formats of identifiers and
//! interface names.
use vstd::prelude::*;

use crate::arcella_types::module_id::{
    module_id_shape, split_at_first_at, MODULE_ID_PATTERN, NAME_GROUP, VERSION_GROUP,
};
use crate::text::{all_ascii, all_name_chars};

verus! {

/// What `regex::Regex::new(pattern)` followed by `captures(text)` yields for
/// the two named groups `first` and `second` (`None` when the pattern does
/// not compile, does not match, or a group did not participate).
pub uninterp spec fn regex_named_pair(
    pattern: Seq<char>,
    text: Seq<char>,
    first: Seq<char>,
    second: Seq<char>,
) -> Option<(Seq<char>, Seq<char>)>;

/// The views of an optional pair of strings.
pub open spec fn opt_pair_view(r: Option<(String, String)>) -> Option<(Seq<char>, Seq<char>)> {
    match r {
        Some((a, b)) => Some((a@, b@)),
        None => None,
    }
}

/// Compiles `pattern` with `regex::Regex::new` and returns the text of the
/// named groups `first` and `second` of `captures(text)`.
///
/// Claimed of the crate: the result is a function of the four arguments.
/// For [`MODULE_ID_PATTERN`] (`^(?P<name>[a-zA-Z0-9_-]+)@(?P<version>\d+\.\d+\.\d+)$`)
/// the regex syntax documentation gives: a match splits the text at its
/// first `@` into a non-empty run of `[a-zA-Z0-9_-]` and the rest; and on an
/// ASCII text, the pattern matches exactly the texts of shape
/// `name@digits.digits.digits`. What `\d` (Unicode decimal digits) accepts
/// beyond ASCII is left unsaid.
#[verifier::external_body]
pub(crate) fn regex_capture_pair(pattern: &str, text: &str, first: &str, second: &str) -> (r:
    Option<(String, String)>)
    ensures
        opt_pair_view(r) == regex_named_pair(pattern@, text@, first@, second@),
        pattern@ == MODULE_ID_PATTERN@ && first@ == NAME_GROUP@ && second@ == VERSION_GROUP@ ==> {
            &&& r is Some ==> opt_pair_view(r) == split_at_first_at(text@)
            &&& r is Some ==> (r->0).0@.len() > 0 && all_name_chars((r->0).0@)
            &&& all_ascii(text@) ==> (r is Some <==> module_id_shape(text@))
        },
{
    let re = regex::Regex::new(pattern).ok()?;
    let caps = re.captures(text)?;
    Some((caps.name(first)?.as_str().to_string(), caps.name(second)?.as_str().to_string()))
}

/// The pattern of an interface reference with a version, such as
/// `wasi:http@0.2.0`.
pub const IFACE_VERSIONED_PATTERN: &'static str = "^[a-zA-Z0-9_-]+:[a-zA-Z0-9_/-]+@[a-zA-Z0-9.+_-]+$";

/// The pattern of an interface reference without a version, such as
/// `my:custom`.
pub const IFACE_PLAIN_PATTERN: &'static str = "^[a-zA-Z0-9_-]+:[a-zA-Z0-9_/-]+$";

/// An ASCII letter or digit.
pub open spec fn ascii_alnum(c: char) -> bool {
    ('a' <= c && c <= 'z') || ('A' <= c && c <= 'Z') || ('0' <= c && c <= '9')
}

/// A character of an interface namespace: `[a-zA-Z0-9_-]`.
pub open spec fn namespace_char(c: char) -> bool {
    ascii_alnum(c) || c == '_' || c == '-'
}

/// A character of an interface path: `[a-zA-Z0-9_/-]`.
pub open spec fn interface_char(c: char) -> bool {
    ascii_alnum(c) || c == '_' || c == '/' || c == '-'
}

/// A character of an interface version: `[a-zA-Z0-9.+_-]`.
pub open spec fn iface_version_char(c: char) -> bool {
    ascii_alnum(c) || c == '.' || c == '+' || c == '_' || c == '-'
}

/// Every character of `s[from..to]` is a namespace character.
pub open spec fn namespace_run(s: Seq<char>, from: int, to: int) -> bool {
    from < to && forall|k: int| from <= k < to ==> namespace_char(#[trigger] s[k])
}

/// Every character of `s[from..to]` is an interface-path character.
pub open spec fn interface_run(s: Seq<char>, from: int, to: int) -> bool {
    from < to && forall|k: int| from <= k < to ==> interface_char(#[trigger] s[k])
}

/// Every character of `s[from..to]` is a version character.
pub open spec fn version_run(s: Seq<char>, from: int, to: int) -> bool {
    from < to && forall|k: int| from <= k < to ==> iface_version_char(#[trigger] s[k])
}

/// `s` reads `namespace:interface@version` (the language of
/// [`IFACE_VERSIONED_PATTERN`]).
pub open spec fn iface_versioned(s: Seq<char>) -> bool {
    exists|i: int, j: int|
        0 <= i < j < s.len() && #[trigger] s[i] == ':' && #[trigger] s[j] == '@' && namespace_run(
            s,
            0,
            i,
        ) && interface_run(s, i + 1, j) && version_run(s, j + 1, s.len() as int)
}

/// `s` reads `namespace:interface` (the language of [`IFACE_PLAIN_PATTERN`]).
pub open spec fn iface_plain(s: Seq<char>) -> bool {
    exists|i: int|
        0 <= i < s.len() && #[trigger] s[i] == ':' && namespace_run(s, 0, i) && interface_run(
            s,
            i + 1,
            s.len() as int,
        )
}

/// What `regex::Regex::new(pattern)` followed by `is_match(text)` yields
/// (`false` when the pattern does not compile).
pub uninterp spec fn regex_is_match(pattern: Seq<char>, text: Seq<char>) -> bool;

/// Compiles `pattern` with `regex::Regex::new` and tests it on `text` with
/// `is_match`.
///
/// Claimed of the crate: the result is a function of the two texts. For the
/// two interface patterns, whose classes list ASCII characters only and whose
/// anchors cover the whole text, the regex syntax documentation gives the
/// language exactly: [`iface_versioned`] and [`iface_plain`].
#[verifier::external_body]
pub(crate) fn regex_test(pattern: &str, text: &str) -> (r: bool)
    ensures
        r == regex_is_match(pattern@, text@),
        pattern@ == IFACE_VERSIONED_PATTERN@ ==> (r == iface_versioned(text@)),
        pattern@ == IFACE_PLAIN_PATTERN@ ==> (r == iface_plain(text@)),
{
    regex::Regex::new(pattern).map(|re| re.is_match(text)).unwrap_or(false)
}

} // verus!
