//! The interfaces a component provides or requires, keyed by interface name.
//!
//! The entries live in a `flexicon::adaptive::NamedMap`, which reads either
//! an object of detailed entries or a plain list of names.
use vstd::prelude::*;

use std::collections::HashMap;

use flexicon::adaptive::NamedMap;

use crate::arcella_types::spec::ComponentItemSpec;

verus! {

#[verifier::external_type_specification]
#[verifier::external_body]
#[verifier::reject_recursive_types(T)]
pub struct ExNamedMap<T>(NamedMap<T>);

/// The entries of a `NamedMap` of item descriptions, keyed by the text of
/// their names.
pub uninterp spec fn named_entries(m: NamedMap<ComponentItemSpec>) -> Map<Seq<char>, ComponentItemSpec>;

/// `NamedMap::new`: an empty map.
#[verifier::external_body]
fn named_map_new() -> (r: NamedMap<ComponentItemSpec>)
    ensures
        named_entries(r).dom() == Set::<Seq<char>>::empty(),
{
    NamedMap::new()
}

/// `NamedMap::insert`: adds the entry, replacing any entry of the same name
/// (the inner `HashMap::insert`).
#[verifier::external_body]
fn named_map_insert(m: &mut NamedMap<ComponentItemSpec>, key: String, value: ComponentItemSpec)
    ensures
        named_entries(*final(m)) == named_entries(*old(m)).insert(key@, value),
{
    m.insert(key, value)
}

/// `NamedMap::clone` (derived): a map with the same entries.
#[verifier::external_body]
fn named_map_clone(m: &NamedMap<ComponentItemSpec>) -> (r: NamedMap<ComponentItemSpec>)
    ensures
        named_entries(r) == named_entries(*m),
{
    m.clone()
}

/// `NamedMap::is_empty`: whether there is no entry.
#[verifier::external_body]
fn named_map_is_empty(m: &NamedMap<ComponentItemSpec>) -> (r: bool)
    ensures
        r == (named_entries(*m).dom() == Set::<Seq<char>>::empty()),
{
    m.is_empty()
}

/// `NamedMap::as_inner`: the inner `HashMap`, whose entries are those of the
/// map, under the same names.
#[verifier::external_body]
fn named_map_as_inner(m: &NamedMap<ComponentItemSpec>) -> (r: &HashMap<String, ComponentItemSpec>)
    ensures
        forall|k: String| #[trigger] r@.contains_key(k) <==> named_entries(*m).contains_key(k@),
        forall|k: String| #[trigger] r@.contains_key(k) ==> r@[k] == named_entries(*m)[k@],
{
    m.as_inner()
}

/// `NamedMap::into_inner`: the inner `HashMap`, as for [`named_map_as_inner`].
#[verifier::external_body]
fn named_map_into_inner(m: NamedMap<ComponentItemSpec>) -> (r: HashMap<String, ComponentItemSpec>)
    ensures
        forall|k: String| #[trigger] r@.contains_key(k) <==> named_entries(m).contains_key(k@),
        forall|k: String| #[trigger] r@.contains_key(k) ==> r@[k] == named_entries(m)[k@],
{
    m.into_inner()
}

/// `NamedMap::from(HashMap)`: a map holding exactly the entries of `map`.
#[verifier::external_body]
fn named_map_from_hashmap(map: HashMap<String, ComponentItemSpec>) -> (r: NamedMap<ComponentItemSpec>)
    ensures
        forall|k: String| #[trigger] map@.contains_key(k) ==> named_entries(r).contains_key(k@)
            && named_entries(r)[k@] == map@[k],
        forall|t: Seq<char>| #[trigger] named_entries(r).contains_key(t) ==> exists|k: String|
            #[trigger] map@.contains_key(k) && k@ == t,
{
    NamedMap::from(map)
}

/// The entries of the map in the order the inner `HashMap` walks them
/// (`as_inner().iter()`), each name and description cloned. The order
/// depends on the map's hasher and is left unsaid: what is claimed is that
/// each entry of the map comes out exactly once.
#[verifier::external_body]
fn named_map_entries(m: &NamedMap<ComponentItemSpec>) -> (r: Vec<(String, ComponentItemSpec)>)
    ensures
        forall|t: Seq<char>| #[trigger] named_entries(*m).contains_key(t) ==> exists|i: int|
            0 <= i < r@.len() && (#[trigger] r@[i]).0@ == t,
        forall|i: int| 0 <= i < r@.len() ==> named_entries(*m).contains_key(#[trigger] r@[i].0@)
            && named_entries(*m)[r@[i].0@] == r@[i].1,
        forall|i: int, j: int| 0 <= i < j < r@.len() ==> (#[trigger] r@[i]).0@ != (#[trigger] r@[j]).0@,
{
    m.as_inner().iter().map(|(k, v)| (k.clone(), v.clone())).collect()
}

/// A set of interface declarations, keyed by interface name (for example
/// `logger:log@1.0`).
#[derive(Debug, PartialEq, Eq)]
pub struct InterfaceList(NamedMap<ComponentItemSpec>);

impl Clone for InterfaceList {
    fn clone(&self) -> (r: Self)
        ensures
            r@ == self@,
    {
        InterfaceList(named_map_clone(&self.0))
    }
}

impl View for InterfaceList {
    type V = Map<Seq<char>, ComponentItemSpec>;

    closed spec fn view(&self) -> Map<Seq<char>, ComponentItemSpec> {
        named_entries(self.0)
    }
}

/// The interfaces of `names`, each with the placeholder description, a
/// later name replacing an earlier equal one.
pub open spec fn names_map(names: Seq<String>) -> Map<Seq<char>, ComponentItemSpec>
    decreases names.len(),
{
    if names.len() == 0 {
        Map::empty()
    } else {
        names_map(names.drop_last()).insert(
            names.last()@,
            ComponentItemSpec::Unknown { debug: None },
        )
    }
}

impl Default for InterfaceList {
    fn default() -> (r: Self)
        ensures
            r@.dom() == Set::<Seq<char>>::empty(),
    {
        InterfaceList(named_map_new())
    }
}

impl InterfaceList {
    /// Creates an empty interface list.
    pub fn new() -> (r: Self)
        ensures
            r@.dom() == Set::<Seq<char>>::empty(),
    {
        InterfaceList(named_map_new())
    }

    /// Adds an interface, replacing any previous declaration of that name.
    pub fn insert(&mut self, key: String, value: ComponentItemSpec)
        ensures
            final(self)@ == old(self)@.insert(key@, value),
    {
        named_map_insert(&mut self.0, key, value)
    }

    /// The declarations, each exactly once, in no particular order.
    pub fn iter(&self) -> (r: Vec<(String, ComponentItemSpec)>)
        ensures
            forall|t: Seq<char>| #[trigger] self@.contains_key(t) ==> exists|i: int|
                0 <= i < r@.len() && (#[trigger] r@[i]).0@ == t,
            forall|i: int| 0 <= i < r@.len() ==> self@.contains_key(#[trigger] r@[i].0@)
                && self@[r@[i].0@] == r@[i].1,
            forall|i: int, j: int| 0 <= i < j < r@.len() ==> (#[trigger] r@[i]).0@ != (#[trigger] r@[j]).0@,
    {
        named_map_entries(&self.0)
    }

    /// Whether no interface is declared.
    pub fn is_empty(&self) -> (r: bool)
        ensures
            r == (self@.dom() == Set::<Seq<char>>::empty()),
    {
        named_map_is_empty(&self.0)
    }

    /// The declarations as a `HashMap`, consuming the list.
    pub fn into_inner(self) -> (r: HashMap<String, ComponentItemSpec>)
        ensures
            forall|k: String| #[trigger] r@.contains_key(k) <==> self@.contains_key(k@),
            forall|k: String| #[trigger] r@.contains_key(k) ==> r@[k] == self@[k@],
    {
        named_map_into_inner(self.0)
    }

    /// The declarations as a `HashMap`.
    pub fn as_inner(&self) -> (r: &HashMap<String, ComponentItemSpec>)
        ensures
            forall|k: String| #[trigger] r@.contains_key(k) <==> self@.contains_key(k@),
            forall|k: String| #[trigger] r@.contains_key(k) ==> r@[k] == self@[k@],
    {
        named_map_as_inner(&self.0)
    }

    /// The list holding the entries of `map`.
    pub fn from_map(map: HashMap<String, ComponentItemSpec>) -> (r: Self)
        ensures
            forall|k: String| #[trigger] map@.contains_key(k) ==> r@.contains_key(k@) && r@[k@]
                == map@[k],
            forall|t: Seq<char>| #[trigger] r@.contains_key(t) ==> exists|k: String|
                #[trigger] map@.contains_key(k) && k@ == t,
    {
        InterfaceList(named_map_from_hashmap(map))
    }

    /// The list declaring each of `names` with the placeholder description
    /// ([`ComponentItemSpec::from_name`]), as a plain list of names in a
    /// configuration file reads.
    pub fn from_names(names: Vec<String>) -> (r: Self)
        ensures
            r@ == names_map(names@),
    {
        let mut r = InterfaceList::new();
        let mut i: usize = 0;
        while i < names.len()
            invariant
                0 <= i <= names.len(),
                r@ == names_map(names@.take(i as int)),
            decreases names.len() - i,
        {
            assert(names@.take(i + 1).drop_last() =~= names@.take(i as int));
            let name = names[i].clone();
            let spec = ComponentItemSpec::from_name(name.as_str());
            r.insert(name, spec);
            i += 1;
        }
        assert(names@.take(names.len() as int) =~= names@);
        r
    }
}

} // verus!
