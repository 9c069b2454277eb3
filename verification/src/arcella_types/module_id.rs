//! Module identifiers of the form `name@version`.
use vstd::prelude::*;

use crate::arcella_types::error::ArcellaError;
use crate::arcella_types::pattern::regex_capture_pair;
use crate::text::{all_ascii, lemma_digits_ascii, lemma_name_chars_ascii, lemma_split_pieces_ascii, all_digits, all_name_chars, chars_of, only_digits, only_name_chars, split_chars, split_on};

verus! {

/// Longest accepted module name, in characters.
pub const MAX_NAME_LENGTH: usize = 128;

/// The pattern that a textual module identifier must match.
pub const MODULE_ID_PATTERN: &'static str = "^(?P<name>[a-zA-Z0-9_-]+)@(?P<version>\\d+\\.\\d+\\.\\d+)$";

/// Capture group holding the name in [`MODULE_ID_PATTERN`].
pub const NAME_GROUP: &'static str = "name";

/// Capture group holding the version in [`MODULE_ID_PATTERN`].
pub const VERSION_GROUP: &'static str = "version";

/// A valid module name: 1 to 128 ASCII letters, digits, `_` or `-`.
pub open spec fn spec_is_valid_name(s: Seq<char>) -> bool {
    0 < s.len() <= MAX_NAME_LENGTH && all_name_chars(s)
}

/// One numeric component of a version: ASCII digits, non-empty, and no
/// leading zero unless the component is exactly `0`.
pub open spec fn valid_version_part(p: Seq<char>) -> bool {
    &&& p.len() > 0
    &&& all_digits(p)
    &&& !(p.len() > 1 && p[0] == '0')
}

/// A valid simple version `x.y.z`.
pub open spec fn spec_is_valid_simple_version(s: Seq<char>) -> bool {
    let parts = split_on(s, '.');
    &&& parts.len() == 3
    &&& forall|k: int| 0 <= k < 3 ==> valid_version_part(#[trigger] parts[k])
}

/// Index of the first `@` in `s`, if any.
pub open spec fn first_at(s: Seq<char>) -> Option<int>
    decreases s.len(),
{
    if s.len() == 0 {
        None
    } else if s[0] == '@' {
        Some(0)
    } else {
        match first_at(s.drop_first()) {
            Some(i) => Some(i + 1),
            None => None,
        }
    }
}

/// The text before and after the first `@` of `s`.
pub open spec fn split_at_first_at(s: Seq<char>) -> Option<(Seq<char>, Seq<char>)> {
    match first_at(s) {
        Some(i) => Some((s.take(i), s.skip(i + 1))),
        None => None,
    }
}

/// A version made of three dot-separated runs of ASCII digits.
pub open spec fn version_shape(v: Seq<char>) -> bool {
    let parts = split_on(v, '.');
    &&& parts.len() == 3
    &&& forall|k: int| 0 <= k < 3 ==> (#[trigger] parts[k]).len() > 0 && all_digits(parts[k])
}

/// An ASCII text of the shape `name@digits.digits.digits` that
/// [`MODULE_ID_PATTERN`] describes.
pub open spec fn module_id_shape(s: Seq<char>) -> bool {
    match split_at_first_at(s) {
        Some((n, v)) => n.len() > 0 && all_name_chars(n) && version_shape(v),
        None => false,
    }
}

/// The text `name@version` that [`ModuleId::to_string`] gives.
pub open spec fn spec_module_id_text(name: Seq<char>, version: Seq<char>) -> Seq<char> {
    name + seq!['@'] + version
}

/// Whether `s` is the text of a valid module identifier.
pub open spec fn spec_parses_as_module_id(s: Seq<char>) -> bool {
    match split_at_first_at(s) {
        Some((n, v)) => spec_is_valid_name(n) && spec_is_valid_simple_version(v),
        None => false,
    }
}

/// Facts about the first `@` of a text.
pub proof fn lemma_first_at(s: Seq<char>)
    ensures
        first_at(s) matches Some(i) ==> {
            &&& 0 <= i < s.len()
            &&& s[i] == '@'
            &&& forall|j: int| 0 <= j < i ==> s[j] != '@'
            &&& s == s.take(i) + seq!['@'] + s.skip(i + 1)
        },
        first_at(s) is None ==> forall|j: int| 0 <= j < s.len() ==> s[j] != '@',
    decreases s.len(),
{
    if s.len() > 0 {
        lemma_first_at(s.drop_first());
        if s[0] != '@' {
            if let Some(i) = first_at(s.drop_first()) {
                assert forall|j: int| 0 <= j < i + 1 implies s[j] != '@' by {
                    if j > 0 {
                        assert(s[j] == s.drop_first()[j - 1]);
                    }
                }
                assert(s =~= s.take(i + 1) + seq!['@'] + s.skip(i + 2));
            } else {
                assert forall|j: int| 0 <= j < s.len() implies s[j] != '@' by {
                    if j > 0 {
                        assert(s[j] == s.drop_first()[j - 1]);
                    }
                }
            }
        } else {
            assert(s =~= s.take(0) + seq!['@'] + s.skip(1));
        }
    }
}

/// A valid version is ASCII and has the digit shape.
pub proof fn lemma_valid_version_shape(v: Seq<char>)
    requires
        spec_is_valid_simple_version(v),
    ensures
        version_shape(v),
        all_ascii(v),
{
    let parts = split_on(v, '.');
    assert forall|k: int| 0 <= k < parts.len() implies all_ascii(#[trigger] parts[k]) by {
        assert(valid_version_part(parts[k]));
        lemma_digits_ascii(parts[k]);
    }
    lemma_split_pieces_ascii(v, '.');
}

/// A text that parses as a module identifier is ASCII and has the pattern's shape.
pub proof fn lemma_parses_shape(s: Seq<char>)
    requires
        spec_parses_as_module_id(s),
    ensures
        all_ascii(s),
        module_id_shape(s),
{
    lemma_first_at(s);
    let i = first_at(s)->0;
    let n = s.take(i);
    let v = s.skip(i + 1);
    lemma_valid_version_shape(v);
    lemma_name_chars_ascii(n);
    assert forall|j: int| 0 <= j < s.len() implies (#[trigger] s[j]) < '\x7f' || s[j]
        == '\x7f' by {
        if j < i {
            assert(s[j] == n[j]);
        } else if j > i {
            assert(s[j] == v[j - i - 1]);
        }
    }
}

/// The first `@` of `a + b` is the first `@` of `b` when `a` has none.
pub proof fn lemma_first_at_append(a: Seq<char>, b: Seq<char>)
    requires
        forall|j: int| 0 <= j < a.len() ==> a[j] != '@',
    ensures
        first_at(a + b) == (match first_at(b) {
            Some(i) => Some(i + a.len()),
            None => None::<int>,
        }),
    decreases a.len(),
{
    if a.len() > 0 {
        assert((a + b).drop_first() =~= a.drop_first() + b);
        assert(a[0] != '@');
        lemma_first_at_append(a.drop_first(), b);
    } else {
        assert(a + b =~= b);
    }
}

/// The text `name@version` of a valid identifier parses back to the same
/// name and version.
pub proof fn law_module_id_text_roundtrip(name: Seq<char>, version: Seq<char>)
    requires
        spec_is_valid_name(name),
        spec_is_valid_simple_version(version),
    ensures
        spec_parses_as_module_id(spec_module_id_text(name, version)),
        split_at_first_at(spec_module_id_text(name, version)) == Some((name, version)),
{
    let t = spec_module_id_text(name, version);
    assert forall|j: int| 0 <= j < name.len() implies name[j] != '@' by {
        assert(crate::text::is_name_char(name[j]));
    }
    lemma_first_at_append(name, seq!['@'] + version);
    assert(name + (seq!['@'] + version) =~= t);
    assert(first_at(seq!['@'] + version) == Some(0int));
    assert(t.take(name.len() as int) =~= name);
    assert(t.skip(name.len() as int + 1) =~= version);
}

/// Unique identifier for an installed module, in the form `name@version`.
///
/// - `name`: 1 to 128 characters out of `[a-zA-Z0-9_-]`;
/// - `version`: a strict `x.y.z` version (three numeric parts, no leading zeros).
#[derive(Debug, PartialEq, Eq, Hash)]
pub struct ModuleId {
    pub name: String,
    pub version: String,
}

/// The two serialized forms of a module identifier.
#[derive(Debug)]
pub enum ModuleIdInput {
    /// `"name@version"`.
    Text(String),
    /// `{ "name": ..., "version": ... }`.
    Fields { name: String, version: String },
}

impl Clone for ModuleId {
    fn clone(&self) -> (r: Self)
        ensures
            r == *self,
    {
        ModuleId { name: self.name.clone(), version: self.version.clone() }
    }
}

/// Checks a component or module name: non-empty, at most 128 characters,
/// and only ASCII letters, digits, underscores or hyphens.
pub fn is_valid_name(name: &str) -> (r: bool)
    ensures
        r == spec_is_valid_name(name@),
{
    let chars = chars_of(name);
    if chars.len() == 0 || chars.len() > MAX_NAME_LENGTH {
        return false;
    }
    only_name_chars(&chars)
}

/// Checks one numeric component of a simple version.
fn is_valid_version_part(p: &Vec<char>) -> (r: bool)
    ensures
        r == valid_version_part(p@),
{
    if p.len() == 0 {
        return false;
    }
    if p.len() > 1 && p[0] == '0' {
        return false;
    }
    only_digits(p)
}

/// Checks a simple version string like `1.2.3`: exactly three dot-separated
/// parts, each a non-empty run of ASCII digits without leading zeros
/// (except `0` itself).
pub fn is_valid_simple_version(version: &str) -> (r: bool)
    ensures
        r == spec_is_valid_simple_version(version@),
{
    let chars = chars_of(version);
    let parts = split_chars(&chars, '.');
    if parts.len() != 3 {
        return false;
    }
    let mut k: usize = 0;
    while k < 3
        invariant
            k <= 3,
            parts@.len() == 3,
            parts@.len() == split_on(version@, '.').len(),
            forall|j: int|
                0 <= j < parts@.len() ==> (#[trigger] parts@[j])@ == split_on(version@, '.')[j],
            forall|j: int| 0 <= j < k ==> valid_version_part(#[trigger] split_on(version@, '.')[j]),
        decreases 3 - k,
    {
        if !is_valid_version_part(&parts[k]) {
            assert(parts@[k as int]@ == split_on(version@, '.')[k as int]);
            return false;
        }
        k = k + 1;
    }
    true
}

impl ModuleId {
    /// Creates a new `ModuleId` after validating name and version.
    pub fn new(name: String, version: String) -> (r: Result<ModuleId, ArcellaError>)
        ensures
            !spec_is_valid_name(name@) ==> r == Err::<ModuleId, _>(
                ArcellaError::InvalidModuleIdName(name),
            ),
            spec_is_valid_name(name@) && !spec_is_valid_simple_version(version@) ==> r == Err::<
                ModuleId,
                _,
            >(ArcellaError::InvalidModuleIdVersion(version)),
            spec_is_valid_name(name@) && spec_is_valid_simple_version(version@) ==> r == Ok::<
                _,
                ArcellaError,
            >(ModuleId { name, version }),
    {
        if !is_valid_name(name.as_str()) {
            return Err(ArcellaError::InvalidModuleIdName(name));
        }
        if !is_valid_simple_version(version.as_str()) {
            return Err(ArcellaError::InvalidModuleIdVersion(version));
        }
        Ok(ModuleId { name, version })
    }

    /// Parses the text `name@version`.
    ///
    /// The text is matched against [`MODULE_ID_PATTERN`]; the captured name
    /// and version are then checked as by [`ModuleId::new`].
    pub fn from_str(s: &str) -> (r: Result<ModuleId, ArcellaError>)
        ensures
            r is Ok <==> spec_parses_as_module_id(s@),
            r matches Ok(id) ==> split_at_first_at(s@) == Some((id.name@, id.version@)),
            all_ascii(s@) && !module_id_shape(s@) ==> (r matches Err(
                ArcellaError::InvalidModuleIdFormat(t),
            ) && t@ == s@),
            all_ascii(s@) && module_id_shape(s@) ==> {
                let (n, v) = split_at_first_at(s@)->0;
                &&& !spec_is_valid_name(n) ==> (r matches Err(
                    ArcellaError::InvalidModuleIdName(t),
                ) && t@ == n)
                &&& spec_is_valid_name(n) && !spec_is_valid_simple_version(v) ==> (r matches Err(
                    ArcellaError::InvalidModuleIdVersion(t),
                ) && t@ == v)
            },
    {
        let caps = regex_capture_pair(MODULE_ID_PATTERN, s, NAME_GROUP, VERSION_GROUP);
        proof {
            if spec_parses_as_module_id(s@) {
                lemma_parses_shape(s@);
            }
        }
        match caps {
            None => Err(ArcellaError::InvalidModuleIdFormat(s.to_owned())),
            Some((name, version)) => ModuleId::new(name, version),
        }
    }

    /// Builds an identifier from either of its serialized forms: the text
    /// `name@version`, or separate name and version fields.
    pub fn from_input(input: ModuleIdInput) -> (r: Result<ModuleId, ArcellaError>)
        ensures
            input matches ModuleIdInput::Text(s) ==> {
                &&& r is Ok <==> spec_parses_as_module_id(s@)
                &&& r matches Ok(id) ==> split_at_first_at(s@) == Some((id.name@, id.version@))
                &&& all_ascii(s@) && !module_id_shape(s@) ==> (r matches Err(
                    ArcellaError::InvalidModuleIdFormat(t),
                ) && t@ == s@)
            },
            input matches ModuleIdInput::Fields { name, version } ==> {
                &&& !spec_is_valid_name(name@) ==> r == Err::<ModuleId, _>(
                    ArcellaError::InvalidModuleIdName(name),
                )
                &&& spec_is_valid_name(name@) && !spec_is_valid_simple_version(version@) ==> r
                    == Err::<ModuleId, _>(ArcellaError::InvalidModuleIdVersion(version))
                &&& spec_is_valid_name(name@) && spec_is_valid_simple_version(version@) ==> r
                    == Ok::<_, ArcellaError>(ModuleId { name, version })
            },
    {
        match input {
            ModuleIdInput::Text(s) => ModuleId::from_str(s.as_str()),
            ModuleIdInput::Fields { name, version } => ModuleId::new(name, version),
        }
    }

    /// The string representation `name@version`.
    pub fn to_string(&self) -> (r: String)
        ensures
            r@ == spec_module_id_text(self.name@, self.version@),
    {
        let mut r = self.name.clone();
        r.append("@");
        r.append(self.version.as_str());
        proof {
            reveal_strlit("@");
        }
        r
    }
}

} // verus!
