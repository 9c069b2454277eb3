//! Flattened configuration values: each dotted key maps to a value and the
//! index of the file that set it.
use vstd::prelude::*;

use indexmap::IndexMap;

use crate::assoc::{find_key, seq_insert};

verus! {

/// A scalar configuration value.
#[derive(Debug, PartialEq, Eq)]
pub enum ConfigValue {
    /// A string.
    String(String),
    /// A 64-bit signed integer.
    Integer(i64),
    /// A 64-bit float, held as its IEEE-754 bit pattern.
    Float(u64),
    /// A boolean.
    Boolean(bool),
}

impl Clone for ConfigValue {
    fn clone(&self) -> (r: Self)
        ensures
            r == *self,
    {
        match self {
            ConfigValue::String(s) => ConfigValue::String(s.clone()),
            ConfigValue::Integer(i) => ConfigValue::Integer(*i),
            ConfigValue::Float(f) => ConfigValue::Float(*f),
            ConfigValue::Boolean(b) => ConfigValue::Boolean(*b),
        }
    }
}

#[verifier::external_type_specification]
#[verifier::external_body]
#[verifier::reject_recursive_types(K)]
#[verifier::reject_recursive_types(V)]
#[verifier::reject_recursive_types(S)]
pub struct ExIndexMap<K, V, S>(IndexMap<K, V, S>);

/// Flattened key-value configuration map in insertion order
/// (e.g. `"arcella.log.level"` → (`"info"`, index of the defining file)).
pub type ConfigValues = IndexMap<String, (ConfigValue, usize)>;

/// The entries of a configuration map, in the map's order.
pub uninterp spec fn config_entries(m: IndexMap<String, (ConfigValue, usize)>) -> Seq<
    (Seq<char>, (ConfigValue, usize)),
>;

/// Creates an empty map with `IndexMap::new`.
#[verifier::external_body]
pub(crate) fn config_values_new() -> (r: ConfigValues)
    ensures
        config_entries(r) == Seq::<(Seq<char>, (ConfigValue, usize))>::empty(),
{
    IndexMap::new()
}

/// Inserts with `IndexMap::insert`: an existing key keeps its position and
/// gets the new value (the old one is returned); a new key goes last.
#[verifier::external_body]
pub(crate) fn config_values_insert(m: &mut ConfigValues, key: String, value: (ConfigValue, usize)) -> (r: Option<
    (ConfigValue, usize),
>)
    ensures
        config_entries(*final(m)) == seq_insert(config_entries(*old(m)), key@, value),
        r == (match find_key(config_entries(*old(m)), key@) {
            Some(i) => Some(config_entries(*old(m))[i].1),
            None => None,
        }),
{
    m.insert(key, value)
}

/// The number of entries, with `IndexMap::len`.
#[verifier::external_body]
pub(crate) fn config_values_len(m: &ConfigValues) -> (r: usize)
    ensures
        r == config_entries(*m).len(),
{
    m.len()
}

/// A copy of the entry at position `i`, with `IndexMap::get_index`.
#[verifier::external_body]
pub(crate) fn config_values_get_index(m: &ConfigValues, i: usize) -> (r: (String, (ConfigValue, usize)))
    requires
        i < config_entries(*m).len(),
    ensures
        r.0@ == config_entries(*m)[i as int].0,
        r.1 == config_entries(*m)[i as int].1,
{
    let (k, v) = m.get_index(i).unwrap();
    (k.clone(), v.clone())
}

/// `a` comes before `b` in the lexicographic order of their characters
/// (the order of `String`'s `Ord`: UTF-8 byte order is code-point order).
pub open spec fn text_lt(a: Seq<char>, b: Seq<char>) -> bool
    decreases a.len(),
{
    if a.len() == 0 {
        b.len() > 0
    } else if b.len() == 0 {
        false
    } else if a[0] != b[0] {
        (a[0] as int) < (b[0] as int)
    } else {
        text_lt(a.drop_first(), b.drop_first())
    }
}

/// The keys of `es` never decrease.
pub open spec fn keys_sorted(es: Seq<(Seq<char>, (ConfigValue, usize))>) -> bool {
    forall|i: int, j: int|
        0 <= i < j < es.len() ==> (#[trigger] es[i]).0 == (#[trigger] es[j]).0 || text_lt(
            es[i].0,
            es[j].0,
        )
}

/// Sorts the entries by key with `IndexMap::sort_keys`: the same entries,
/// now in ascending key order.
#[verifier::external_body]
pub(crate) fn config_values_sort_keys(m: &mut ConfigValues)
    ensures
        config_entries(*final(m)).to_multiset() == config_entries(*old(m)).to_multiset(),
        keys_sorted(config_entries(*final(m))),
{
    m.sort_keys()
}

/// A copy of the value stored under `key`, with `IndexMap::get`.
#[verifier::external_body]
pub(crate) fn config_values_get(m: &ConfigValues, key: &str) -> (r: Option<(ConfigValue, usize)>)
    ensures
        r == (match find_key(config_entries(*m), key@) {
            Some(i) => Some(config_entries(*m)[i].1),
            None => None,
        }),
{
    m.get(key).cloned()
}

} // verus!
