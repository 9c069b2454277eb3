//! Extraction of a nested table from flattened configuration values.
use vstd::prelude::*;

use crate::arcella_types::config::{config_entries, config_values_get_index, config_values_len, ConfigValues, ConfigValue};
use crate::assoc::{lookup, seq_insert};
use crate::text::{chars_of, has_prefix, split_on, split_str, starts_with_chars, substring};

verus! {

/// A nested table: keys map to values or to further tables.
#[derive(Debug)]
pub struct TomlTable {
    /// The entries, in insertion order, with distinct keys.
    pub entries: Vec<(String, TomlNode)>,
}

/// A table entry: a value or a nested table.
#[derive(Debug)]
pub enum TomlNode {
    /// A value.
    Leaf(ConfigValue),
    /// A nested table.
    Table(TomlTable),
}

/// The mathematical model of a table entry.
pub enum TomlTree {
    /// A value.
    Leaf(ConfigValue),
    /// A nested table, as keyed entries.
    Table(Seq<(Seq<char>, TomlTree)>),
}

/// The model of a node.
pub open spec fn node_view(n: TomlNode) -> TomlTree
    decreases n,
{
    match n {
        TomlNode::Leaf(v) => TomlTree::Leaf(v),
        TomlNode::Table(t) => TomlTree::Table(
            Seq::new(
                t.entries@.len(),
                |i: int|
                    if 0 <= i < t.entries@.len() {
                        proof {
                            assert(decreases_to!(n => t));
                            assert(decreases_to!(t => t.entries));
                            assert(decreases_to!(t.entries => t.entries@));
                            assert(decreases_to!(t.entries@ => t.entries@[i]));
                            assert(decreases_to!(t.entries@[i] => t.entries@[i].1));
                        }
                        (t.entries@[i].0@, node_view(t.entries@[i].1))
                    } else {
                        (Seq::empty(), TomlTree::Leaf(ConfigValue::Boolean(false)))
                    },
            ),
        ),
    }
}

/// The model of a table: its entries, keyed by text.
pub open spec fn table_view(t: TomlTable) -> Seq<(Seq<char>, TomlTree)> {
    node_view(TomlNode::Table(t))->Table_0
}

/// Inserting `v` at the dotted path `parts`: intermediate tables are created
/// as needed; the last part is set to the value; a path that runs into an
/// existing value is left alone.
pub open spec fn tree_insert_path(
    es: Seq<(Seq<char>, TomlTree)>,
    parts: Seq<Seq<char>>,
    v: ConfigValue,
) -> Seq<(Seq<char>, TomlTree)>
    decreases parts.len(),
{
    if parts.len() == 0 {
        es
    } else if parts.len() == 1 {
        seq_insert(es, parts[0], TomlTree::Leaf(v))
    } else {
        match lookup(es, parts[0]) {
            Some(TomlTree::Table(sub)) => seq_insert(
                es,
                parts[0],
                TomlTree::Table(tree_insert_path(sub, parts.drop_first(), v)),
            ),
            Some(TomlTree::Leaf(_)) => es,
            None => seq_insert(
                es,
                parts[0],
                TomlTree::Table(tree_insert_path(Seq::empty(), parts.drop_first(), v)),
            ),
        }
    }
}

/// The value at the dotted path `path`, if the path leads to one.
pub open spec fn leaf_at(es: Seq<(Seq<char>, TomlTree)>, path: Seq<Seq<char>>) -> Option<ConfigValue>
    decreases path.len(),
{
    if path.len() == 0 {
        None
    } else {
        match lookup(es, path[0]) {
            Some(TomlTree::Leaf(v)) => if path.len() == 1 {
                Some(v)
            } else {
                None
            },
            Some(TomlTree::Table(sub)) => leaf_at(sub, path.drop_first()),
            None => None,
        }
    }
}

/// The views of a list of strings.
pub open spec fn part_views(v: Seq<String>) -> Seq<Seq<char>> {
    v.map_values(|s: String| s@)
}

/// The model of a table lists its entries, in order.
pub proof fn lemma_table_view(t: TomlTable)
    ensures
        table_view(t).len() == t.entries@.len(),
        forall|j: int|
            0 <= j < t.entries@.len() ==> #[trigger] table_view(t)[j] == (
                t.entries@[j].0@,
                node_view(t.entries@[j].1),
            ),
{
}

impl TomlTable {
    /// The entry under `key`, if any.
    pub fn get(&self, key: &str) -> (r: Option<&TomlNode>)
        ensures
            match r {
                Some(n) => lookup(table_view(*self), key@) == Some(node_view(*n)),
                None => lookup(table_view(*self), key@) is None,
            },
    {
        proof {
            lemma_table_view(*self);
            crate::assoc::lemma_find_key(table_view(*self), key@);
        }
        match find_entry(self, key) {
            Some(i) => Some(&self.entries[i].1),
            None => None,
        }
    }

    /// Whether there is an entry under `key`.
    pub fn contains_key(&self, key: &str) -> (r: bool)
        ensures
            r == lookup(table_view(*self), key@) is Some,
    {
        self.get(key).is_some()
    }
}

/// An empty table.
pub fn empty_table() -> (r: TomlTable)
    ensures
        table_view(r) == Seq::<(Seq<char>, TomlTree)>::empty(),
{
    let r = TomlTable { entries: Vec::new() };
    proof {
        lemma_table_view(r);
        assert(table_view(r) =~= Seq::<(Seq<char>, TomlTree)>::empty());
    }
    r
}

/// Finds the first entry keyed `key`.
fn find_entry(t: &TomlTable, key: &str) -> (r: Option<usize>)
    ensures
        r matches Some(i) ==> crate::assoc::find_key(table_view(*t), key@) == Some(i as int),
        r is None ==> crate::assoc::find_key(table_view(*t), key@) is None,
{
    proof {
        lemma_table_view(*t);
        crate::assoc::lemma_find_key(table_view(*t), key@);
    }
    let mut i: usize = 0;
    while i < t.entries.len()
        invariant
            i <= t.entries@.len(),
            table_view(*t).len() == t.entries@.len(),
            forall|j: int| 0 <= j < i ==> (#[trigger] table_view(*t)[j]).0 != key@,
        decreases t.entries@.len() - i,
    {
        if crate::text::same_text(t.entries[i].0.as_str(), key) {
            proof {
                lemma_table_view(*t);
                crate::assoc::lemma_find_key(table_view(*t), key@);
                assert(table_view(*t)[i as int].0 == key@);
                let fi = crate::assoc::find_key(table_view(*t), key@)->0;
                if fi < i {
                    assert(table_view(*t)[fi].0 != key@);
                }
                if fi > i {
                    assert(table_view(*t)[i as int].0 != key@);
                }
            }
            return Some(i);
        }
        proof {
            lemma_table_view(*t);
            assert(table_view(*t)[i as int] == (t.entries@[i as int].0@, node_view(t.entries@[i as int].1)));
        }
        i = i + 1;
    }
    proof {
        crate::assoc::lemma_find_key(table_view(*t), key@);
        if crate::assoc::find_key(table_view(*t), key@) is Some {
            let fi = crate::assoc::find_key(table_view(*t), key@)->0;
            assert(table_view(*t)[fi].0 != key@);
        }
    }
    None
}

/// Inserts `value` at the path `parts[start..]` of `t`.
pub fn insert_path(t: TomlTable, parts: &Vec<String>, start: usize, value: ConfigValue) -> (r: TomlTable)
    requires
        start < parts@.len(),
    ensures
        table_view(r) == tree_insert_path(table_view(t), part_views(parts@).skip(start as int), value),
    decreases parts@.len() - start,
{
    let ghost es = table_view(t);
    let ghost ps = part_views(parts@).skip(start as int);
    proof {
        lemma_table_view(t);
        assert(ps[0] == parts@[start as int]@);
        assert(ps.drop_first() =~= part_views(parts@).skip(start + 1));
        assert(ps.len() == parts@.len() - start);
        crate::assoc::lemma_find_key(es, ps[0]);
    }
    let idx = find_entry(&t, parts[start].as_str());
    let mut entries = t.entries;
    let ghost old_entries = entries@;
    if parts.len() - start == 1 {
        let key = parts[start].clone();
        match idx {
            Some(i) => {
                entries.set(i, (key, TomlNode::Leaf(value)));
            },
            None => {
                entries.push((key, TomlNode::Leaf(value)));
            },
        }
        let r = TomlTable { entries };
        proof {
            lemma_table_view(r);
            assert(table_view(r) =~= seq_insert(es, ps[0], TomlTree::Leaf(value)));
        }
        r
    } else {
        match idx {
            Some(i) => {
                let (k, node) = entries.remove(i);
                proof {
                    assert(old_entries[i as int] == (k, node));
                    assert(lookup(es, ps[0]) == Some(node_view(node)));
                }
                match node {
                    TomlNode::Table(sub) => {
                        let ghost sv = table_view(sub);
                        proof {
                            assert(node_view(TomlNode::Table(sub)) == TomlTree::Table(sv));
                        }
                        let nsub = insert_path(sub, parts, start + 1, value);
                        entries.insert(i, (k, TomlNode::Table(nsub)));
                        let r = TomlTable { entries };
                        proof {
                            lemma_table_view(r);
                            assert(node_view(TomlNode::Table(nsub)) == TomlTree::Table(table_view(nsub)));
                            assert(table_view(r) =~= seq_insert(
                                es,
                                ps[0],
                                TomlTree::Table(tree_insert_path(sv, ps.drop_first(), value)),
                            ));
                        }
                        r
                    },
                    TomlNode::Leaf(v) => {
                        entries.insert(i, (k, TomlNode::Leaf(v)));
                        let r = TomlTable { entries };
                        proof {
                            lemma_table_view(r);
                            assert(entries@ =~= old_entries);
                            assert(table_view(r) =~= es);
                        }
                        r
                    },
                }
            },
            None => {
                let key = parts[start].clone();
                let nsub = insert_path(empty_table(), parts, start + 1, value);
                entries.push((key, TomlNode::Table(nsub)));
                let r = TomlTable { entries };
                proof {
                    lemma_table_view(r);
                    assert(node_view(TomlNode::Table(nsub)) == TomlTree::Table(table_view(nsub)));
                    assert(table_view(r) =~= seq_insert(
                        es,
                        ps[0],
                        TomlTree::Table(tree_insert_path(Seq::empty(), ps.drop_first(), value)),
                    ));
                }
                r
            },
        }
    }
}

/// No proper prefix of `parts` leads to a value.
pub open spec fn path_open(es: Seq<(Seq<char>, TomlTree)>, parts: Seq<Seq<char>>) -> bool {
    forall|j: int| 1 <= j < parts.len() ==> leaf_at(es, #[trigger] parts.take(j)) is None
}

/// An empty table holds no values.
pub proof fn lemma_leaf_at_empty(q: Seq<Seq<char>>)
    ensures
        leaf_at(Seq::<(Seq<char>, TomlTree)>::empty(), q) is None,
{
    if q.len() > 0 {
        crate::assoc::lemma_find_key(Seq::<(Seq<char>, TomlTree)>::empty(), q[0]);
    }
}

/// Inserting at a dotted path sets the value there when no proper prefix of
/// the path is already a value.
pub proof fn law_insert_path_sets(es: Seq<(Seq<char>, TomlTree)>, parts: Seq<Seq<char>>, v: ConfigValue)
    requires
        parts.len() >= 1,
        path_open(es, parts),
    ensures
        leaf_at(tree_insert_path(es, parts, v), parts) == Some(v),
    decreases parts.len(),
{
    let p0 = parts[0];
    let r = tree_insert_path(es, parts, v);
    if parts.len() == 1 {
        crate::assoc::lemma_insert_keys(es, p0, TomlTree::Leaf(v));
    } else {
        let rest = parts.drop_first();
        assert(parts.take(1) =~= seq![p0]);
        match lookup(es, p0) {
            Some(TomlTree::Table(sub)) => {
                assert forall|j: int| 1 <= j < rest.len() implies leaf_at(
                    sub,
                    #[trigger] rest.take(j),
                ) is None by {
                    assert(parts.take(j + 1).drop_first() =~= rest.take(j));
                    assert(parts.take(j + 1)[0] == p0);
                    assert(leaf_at(es, parts.take(j + 1)) is None);
                }
                law_insert_path_sets(sub, rest, v);
                crate::assoc::lemma_insert_keys(
                    es,
                    p0,
                    TomlTree::Table(tree_insert_path(sub, rest, v)),
                );
            },
            Some(TomlTree::Leaf(w)) => {
                assert(leaf_at(es, parts.take(1)) is None);
                assert(leaf_at(es, parts.take(1)) == Some(w));
            },
            None => {
                assert forall|j: int| 1 <= j < rest.len() implies leaf_at(
                    Seq::<(Seq<char>, TomlTree)>::empty(),
                    #[trigger] rest.take(j),
                ) is None by {
                    lemma_leaf_at_empty(rest.take(j));
                }
                law_insert_path_sets(Seq::empty(), rest, v);
                crate::assoc::lemma_insert_keys(
                    es,
                    p0,
                    TomlTree::Table(tree_insert_path(Seq::empty(), rest, v)),
                );
            },
        }
        assert(r.len() >= 0);
    }
}

/// Two non-empty sequences with the same head and the same tail are equal.
proof fn lemma_same_head_rest(a: Seq<Seq<char>>, b: Seq<Seq<char>>)
    requires
        a.len() > 0,
        b.len() > 0,
        a[0] == b[0],
        a.drop_first() == b.drop_first(),
    ensures
        a == b,
{
    assert(a.drop_first().len() == a.len() - 1);
    assert(b.drop_first().len() == b.len() - 1);
    assert forall|k: int| 0 <= k < a.len() implies a[k] == b[k] by {
        if k > 0 {
            assert(a[k] == a.drop_first()[k - 1]);
            assert(b[k] == b.drop_first()[k - 1]);
        }
    }
    assert(a =~= b);
}

/// Inserting at a dotted path adds no value anywhere else: every value of
/// the result is the inserted one at that path, or was there before.
pub proof fn law_insert_path_frame(
    es: Seq<(Seq<char>, TomlTree)>,
    parts: Seq<Seq<char>>,
    v: ConfigValue,
    q: Seq<Seq<char>>,
)
    requires
        parts.len() >= 1,
        leaf_at(tree_insert_path(es, parts, v), q) is Some,
    ensures
        (q == parts && leaf_at(tree_insert_path(es, parts, v), q) == Some(v)) || leaf_at(
            tree_insert_path(es, parts, v),
            q,
        ) == leaf_at(es, q),
    decreases parts.len(),
{
    let p0 = parts[0];
    let r = tree_insert_path(es, parts, v);
    if q.len() > 0 {
        if parts.len() == 1 {
            crate::assoc::lemma_insert_keys(es, p0, TomlTree::Leaf(v));
            if q[0] == p0 && q.len() == 1 {
                assert(q =~= parts);
            }
        } else {
            let rest = parts.drop_first();
            match lookup(es, p0) {
                Some(TomlTree::Table(sub)) => {
                    let nsub = tree_insert_path(sub, rest, v);
                    crate::assoc::lemma_insert_keys(es, p0, TomlTree::Table(nsub));
                    if q[0] == p0 {
                        law_insert_path_frame(sub, rest, v, q.drop_first());
                        if q.drop_first() == rest {
                            lemma_same_head_rest(q, parts);
                        }
                    }
                },
                Some(TomlTree::Leaf(_)) => {},
                None => {
                    let nsub = tree_insert_path(Seq::empty(), rest, v);
                    crate::assoc::lemma_insert_keys(es, p0, TomlTree::Table(nsub));
                    if q[0] == p0 {
                        law_insert_path_frame(Seq::empty(), rest, v, q.drop_first());
                        lemma_leaf_at_empty(q.drop_first());
                        assert(q.drop_first() == rest);
                        lemma_same_head_rest(q, parts);
                    }
                },
            }
        }
    }
}

/// The entry `i` of `entries` is a key under `prefix_dot` whose dotted
/// remainder is `q` and whose value is `w`.
pub open spec fn entry_places(
    entries: Seq<(Seq<char>, (ConfigValue, usize))>,
    prefix_dot: Seq<char>,
    i: int,
    q: Seq<Seq<char>>,
    w: ConfigValue,
) -> bool {
    &&& 0 <= i < entries.len()
    &&& has_prefix(entries[i].0, prefix_dot)
    &&& split_on(entries[i].0.skip(prefix_dot.len() as int), '.') == q
    &&& entries[i].1.0 == w
}

/// Every value of an extracted subtree comes from a configuration key under
/// the prefix: the value at path `q` is the value of a key `prefix.q`.
pub proof fn law_subtree_sound(
    entries: Seq<(Seq<char>, (ConfigValue, usize))>,
    prefix_dot: Seq<char>,
    q: Seq<Seq<char>>,
)
    requires
        leaf_at(subtree_fold(entries, prefix_dot), q) is Some,
    ensures
        exists|i: int|
            entry_places(
                entries,
                prefix_dot,
                i,
                q,
                #[trigger] leaf_at(subtree_fold(entries, prefix_dot), q)->0,
            ),
    decreases entries.len(),
{
    if entries.len() == 0 {
        lemma_leaf_at_empty(q);
    } else {
        let prev = entries.drop_last();
        let t = subtree_fold(prev, prefix_dot);
        let k = entries.last().0;
        let w = leaf_at(subtree_fold(entries, prefix_dot), q)->0;
        let last = entries.len() - 1;
        if has_prefix(k, prefix_dot) {
            let parts = split_on(k.skip(prefix_dot.len() as int), '.');
            crate::text::lemma_split_on_nonempty(k.skip(prefix_dot.len() as int), '.');
            law_insert_path_frame(t, parts, entries.last().1.0, q);
            if q == parts && w == entries.last().1.0 {
                assert(entry_places(entries, prefix_dot, last, q, w));
            } else {
                law_subtree_sound(prev, prefix_dot, q);
                let i = choose|i: int| entry_places(prev, prefix_dot, i, q, #[trigger] leaf_at(t, q)->0);
                assert(entry_places(entries, prefix_dot, i, q, w));
            }
        } else {
            law_subtree_sound(prev, prefix_dot, q);
            let i = choose|i: int| entry_places(prev, prefix_dot, i, q, #[trigger] leaf_at(t, q)->0);
            assert(entry_places(entries, prefix_dot, i, q, w));
        }
    }
}

/// The dotted path of key `k` below the key prefix `prefix_dot`.
pub open spec fn key_path(k: Seq<char>, prefix_dot: Seq<char>) -> Seq<Seq<char>> {
    split_on(k.skip(prefix_dot.len() as int), '.')
}

/// Path `a` is `b` or leads to it (`a` is a prefix of `b`).
pub open spec fn is_path_prefix(a: Seq<Seq<char>>, b: Seq<Seq<char>>) -> bool {
    a.len() <= b.len() && b.take(a.len() as int) == a
}

/// Inserting at a path that neither is `q` nor leads to it keeps the value
/// at `q`.
proof fn lemma_insert_path_keeps(
    es: Seq<(Seq<char>, TomlTree)>,
    parts: Seq<Seq<char>>,
    w: ConfigValue,
    q: Seq<Seq<char>>,
)
    requires
        parts.len() >= 1,
        leaf_at(es, q) is Some,
        !is_path_prefix(parts, q),
    ensures
        leaf_at(tree_insert_path(es, parts, w), q) == leaf_at(es, q),
    decreases parts.len(),
{
    let p0 = parts[0];
    let r = tree_insert_path(es, parts, w);
    assert(q.len() > 0);
    if q[0] != p0 {
        if parts.len() == 1 {
            crate::assoc::lemma_insert_keys(es, p0, TomlTree::Leaf(w));
        } else {
            match lookup(es, p0) {
                Some(TomlTree::Table(sub)) => {
                    crate::assoc::lemma_insert_keys(
                        es,
                        p0,
                        TomlTree::Table(tree_insert_path(sub, parts.drop_first(), w)),
                    );
                },
                Some(TomlTree::Leaf(_)) => {},
                None => {
                    crate::assoc::lemma_insert_keys(
                        es,
                        p0,
                        TomlTree::Table(tree_insert_path(Seq::empty(), parts.drop_first(), w)),
                    );
                },
            }
        }
        assert(lookup(r, q[0]) == lookup(es, q[0]));
    } else {
        if parts.len() == 1 {
            assert(q.take(1) =~= parts);
            assert(false);
        } else {
            let rest = parts.drop_first();
            match lookup(es, p0) {
                Some(TomlTree::Table(sub)) => {
                    if q.len() == 1 {
                        assert(leaf_at(sub, q.drop_first()) is None);
                        assert(false);
                    }
                    if is_path_prefix(rest, q.drop_first()) {
                        assert(q.take(parts.len() as int) =~= parts) by {
                            assert forall|k: int| 0 <= k < parts.len() implies q.take(
                                parts.len() as int,
                            )[k] == parts[k] by {
                                if k > 0 {
                                    assert(q.drop_first().take(rest.len() as int)[k - 1] == rest[k
                                        - 1]);
                                }
                            }
                        }
                        assert(false);
                    }
                    lemma_insert_path_keeps(sub, rest, w, q.drop_first());
                    crate::assoc::lemma_insert_keys(
                        es,
                        p0,
                        TomlTree::Table(tree_insert_path(sub, rest, w)),
                    );
                },
                Some(TomlTree::Leaf(_)) => {},
                None => {},
            }
        }
    }
}

/// Values placed at `q` stay there while later keys leave `q` and its
/// ancestors alone.
proof fn lemma_subtree_keeps(
    entries: Seq<(Seq<char>, (ConfigValue, usize))>,
    prefix_dot: Seq<char>,
    i: int,
    n: int,
)
    requires
        0 <= i < n <= entries.len(),
        leaf_at(
            subtree_fold(entries.take(i + 1), prefix_dot),
            key_path(entries[i].0, prefix_dot),
        ) == Some(entries[i].1.0),
        forall|j: int|
            i < j < entries.len() && has_prefix(#[trigger] entries[j].0, prefix_dot)
                ==> !is_path_prefix(
                key_path(entries[j].0, prefix_dot),
                key_path(entries[i].0, prefix_dot),
            ),
    ensures
        leaf_at(subtree_fold(entries.take(n), prefix_dot), key_path(entries[i].0, prefix_dot))
            == Some(entries[i].1.0),
    decreases n,
{
    if n > i + 1 {
        lemma_subtree_keeps(entries, prefix_dot, i, n - 1);
        let q = key_path(entries[i].0, prefix_dot);
        assert(entries.take(n).drop_last() =~= entries.take(n - 1));
        assert(entries.take(n).last() == entries[n - 1]);
        let k = entries[n - 1].0;
        if has_prefix(k, prefix_dot) {
            crate::text::lemma_split_on_nonempty(k.skip(prefix_dot.len() as int), '.');
            lemma_insert_path_keeps(
                subtree_fold(entries.take(n - 1), prefix_dot),
                key_path(k, prefix_dot),
                entries[n - 1].1.0,
                q,
            );
        }
    }
}

/// Extraction is complete: a key `prefix.q` is found at path `q` of the
/// extracted table, wherever it stands in the configuration, unless an
/// earlier key under the prefix holds a value on the way to `q`, or a
/// later key under the prefix sets `q` itself or a table on the way to it.
pub proof fn law_subtree_complete(
    entries: Seq<(Seq<char>, (ConfigValue, usize))>,
    prefix_dot: Seq<char>,
    i: int,
)
    requires
        0 <= i < entries.len(),
        has_prefix(entries[i].0, prefix_dot),
        forall|j: int|
            0 <= j < i && has_prefix(#[trigger] entries[j].0, prefix_dot) ==> !(is_path_prefix(
                key_path(entries[j].0, prefix_dot),
                key_path(entries[i].0, prefix_dot),
            ) && key_path(entries[j].0, prefix_dot).len() < key_path(
                entries[i].0,
                prefix_dot,
            ).len()),
        forall|j: int|
            i < j < entries.len() && has_prefix(#[trigger] entries[j].0, prefix_dot)
                ==> !is_path_prefix(
                key_path(entries[j].0, prefix_dot),
                key_path(entries[i].0, prefix_dot),
            ),
    ensures
        leaf_at(subtree_fold(entries, prefix_dot), key_path(entries[i].0, prefix_dot)) == Some(
            entries[i].1.0,
        ),
{
    let q = key_path(entries[i].0, prefix_dot);
    let v = entries[i].1.0;
    let before = entries.take(i);
    let t = subtree_fold(before, prefix_dot);
    crate::text::lemma_split_on_nonempty(entries[i].0.skip(prefix_dot.len() as int), '.');
    assert forall|m: int| 1 <= m < q.len() implies leaf_at(t, #[trigger] q.take(m)) is None by {
        if leaf_at(t, q.take(m)) is Some {
            law_subtree_sound(before, prefix_dot, q.take(m));
            let j = choose|j: int|
                entry_places(before, prefix_dot, j, q.take(m), #[trigger] leaf_at(t, q.take(m))->0);
            assert(before[j] == entries[j]);
            assert(q.take(m).len() == m);
            assert(is_path_prefix(key_path(entries[j].0, prefix_dot), q));
        }
    }
    assert(entries.take(i + 1).drop_last() =~= before);
    assert(entries.take(i + 1).last() == entries[i]);
    law_insert_path_sets(t, q, v);
    lemma_subtree_keeps(entries, prefix_dot, i, entries.len() as int);
    assert(entries.take(entries.len() as int) =~= entries);
}

/// The tree that [`extract_subtree`] builds from the first entries of a
/// configuration, for the key prefix `prefix_dot` (the prefix and a dot).
pub open spec fn subtree_fold(
    entries: Seq<(Seq<char>, (ConfigValue, usize))>,
    prefix_dot: Seq<char>,
) -> Seq<(Seq<char>, TomlTree)>
    decreases entries.len(),
{
    if entries.len() == 0 {
        Seq::empty()
    } else {
        let t = subtree_fold(entries.drop_last(), prefix_dot);
        let k = entries.last().0;
        if has_prefix(k, prefix_dot) {
            tree_insert_path(t, split_on(k.skip(prefix_dot.len() as int), '.'), entries.last().1.0)
        } else {
            t
        }
    }
}

/// Extracts the nested table of the keys under `prefix`: for every key
/// `prefix.a.b.c`, the value is placed at path `a` → `b` → `c`, in the order
/// of the configuration; a path that runs into an existing value is
/// ignored, and a later value at the same path replaces an earlier one.
pub fn extract_subtree(config: &ConfigValues, prefix: &str) -> (r: TomlTable)
    ensures
        table_view(r) == subtree_fold(config_entries(*config), prefix@ + "."@),
{
    let mut prefix_with_dot = String::from_str(prefix);
    prefix_with_dot.append(".");
    let pchars = chars_of(prefix_with_dot.as_str());
    let ghost pd = prefix@ + "."@;
    let ghost entries = config_entries(*config);
    let n = config_values_len(config);
    let mut table = empty_table();
    let mut i: usize = 0;
    while i < n
        invariant
            i <= n,
            n == entries.len(),
            entries == config_entries(*config),
            pchars@ == pd,
            table_view(table) == subtree_fold(entries.take(i as int), pd),
        decreases n - i,
    {
        let (key, (value, _)) = config_values_get_index(config, i);
        proof {
            assert(entries.take(i + 1).drop_last() =~= entries.take(i as int));
            assert(entries.take(i + 1).last() == entries[i as int]);
        }
        let kchars = chars_of(key.as_str());
        if starts_with_chars(&kchars, &pchars) {
            let subkey = substring(key.as_str(), pchars.len(), kchars.len());
            let parts = split_str(subkey.as_str(), '.');
            proof {
                assert(subkey@ =~= key@.skip(pd.len() as int));
                crate::text::lemma_split_on_nonempty(subkey@, '.');
                assert(part_views(parts@) =~= split_on(subkey@, '.'));
                assert(part_views(parts@).skip(0) =~= part_views(parts@));
            }
            table = insert_path(table, &parts, 0, value);
        }
        i = i + 1;
    }
    proof {
        assert(entries.take(n as int) =~= entries);
    }
    table
}

} // verus!
