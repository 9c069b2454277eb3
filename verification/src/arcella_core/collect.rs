//! Flattening a parsed configuration file into dotted keys.
use vstd::prelude::*;

use crate::arcella_core::config::TomlFileData;
use crate::arcella_core::fs::{TraversalResult, MAX_TOML_DEPTH};
use crate::arcella_core::subtree::{leaf_at, lemma_table_view, node_view, table_view, TomlNode, TomlTable, TomlTree};
use crate::arcella_types::config::{
    config_entries, config_values_insert, config_values_new, ConfigValues, ConfigValue,
};
use crate::assoc::{find_key, lookup, seq_insert};
use crate::text::has_prefix;

verus! {

/// The key of `k` under `prefix`: `prefix.k`, or `k` alone without a prefix.
pub open spec fn dotted(prefix: Seq<char>, k: Seq<char>) -> Seq<char> {
    if prefix.len() == 0 {
        k
    } else {
        prefix + "."@ + k
    }
}

/// The values of a table under `prefix`, in document order, each nested
/// table contributing its own values under its dotted key; tables nested
/// deeper than [`MAX_TOML_DEPTH`] are skipped, which the flag reports.
pub open spec fn flat_table(es: Seq<(Seq<char>, TomlTree)>, prefix: Seq<char>, depth: nat) -> (
    Seq<(Seq<char>, ConfigValue)>,
    bool,
)
    decreases es,
{
    if es.len() == 0 {
        (Seq::empty(), false)
    } else {
        proof {
            assert(decreases_to!(es => es.subrange(0, es.len() - 1)));
        }
        let before = flat_table(es.subrange(0, es.len() - 1), prefix, depth);
        let key = dotted(prefix, es[es.len() - 1].0);
        let last = match es[es.len() - 1].1 {
            TomlTree::Leaf(v) => (seq![(key, v)], false),
            TomlTree::Table(sub) => if depth >= MAX_TOML_DEPTH {
                (Seq::empty(), true)
            } else {
                proof {
                    assert(decreases_to!(es => es[es.len() - 1]));
                    assert(decreases_to!(es[es.len() - 1] => es[es.len() - 1].1));
                }
                flat_table(sub, key, depth + 1)
            },
        };
        (before.0 + last.0, before.1 || last.1)
    }
}

/// The entries after inserting each of `pairs` in order, each value tagged
/// with the file index `idx`.
pub open spec fn insert_all(
    s: Seq<(Seq<char>, (ConfigValue, usize))>,
    pairs: Seq<(Seq<char>, ConfigValue)>,
    idx: usize,
) -> Seq<(Seq<char>, (ConfigValue, usize))>
    decreases pairs.len(),
{
    if pairs.len() == 0 {
        s
    } else {
        seq_insert(insert_all(s, pairs.drop_last(), idx), pairs.last().0, (pairs.last().1, idx))
    }
}

/// Inserting a concatenation is inserting its two parts in turn.
proof fn lemma_insert_all_concat(
    s: Seq<(Seq<char>, (ConfigValue, usize))>,
    a: Seq<(Seq<char>, ConfigValue)>,
    b: Seq<(Seq<char>, ConfigValue)>,
    idx: usize,
)
    ensures
        insert_all(s, a + b, idx) == insert_all(insert_all(s, a, idx), b, idx),
    decreases b.len(),
{
    if b.len() == 0 {
        assert(a + b =~= a);
    } else {
        assert((a + b).drop_last() =~= a + b.drop_last());
        lemma_insert_all_concat(s, a, b.drop_last(), idx);
    }
}

/// A text that begins with `a + b` begins with `a`.
proof fn lemma_prefix_of_prefix(x: Seq<char>, a: Seq<char>, b: Seq<char>)
    requires
        has_prefix(x, a + b),
    ensures
        has_prefix(x, a),
{
    assert(x.take(a.len() as int) =~= (a + b).take(a.len() as int));
    assert((a + b).take(a.len() as int) =~= a);
}

/// Every key flattened under a non-empty prefix begins with `prefix.`: a
/// file's values all land in its namespace.
pub proof fn law_flat_keys_prefixed(es: Seq<(Seq<char>, TomlTree)>, prefix: Seq<char>, depth: nat)
    requires
        prefix.len() > 0,
    ensures
        forall|i: int|
            0 <= i < flat_table(es, prefix, depth).0.len() ==> has_prefix(
                #[trigger] flat_table(es, prefix, depth).0[i].0,
                prefix + "."@,
            ),
    decreases es,
{
    if es.len() > 0 {
        let init = es.subrange(0, es.len() - 1);
        assert(decreases_to!(es => init));
        law_flat_keys_prefixed(init, prefix, depth);
        let before = flat_table(init, prefix, depth).0;
        let k = es[es.len() - 1].0;
        let key = dotted(prefix, k);
        assert(key =~= (prefix + "."@) + k);
        assert(has_prefix(key, prefix + "."@)) by {
            assert(key.take((prefix + "."@).len() as int) =~= prefix + "."@);
        }
        match es[es.len() - 1].1 {
            TomlTree::Leaf(v) => {},
            TomlTree::Table(sub) => {
                if depth < MAX_TOML_DEPTH {
                    assert(decreases_to!(es => es[es.len() - 1]));
                    assert(decreases_to!(es[es.len() - 1] => es[es.len() - 1].1));
                    law_flat_keys_prefixed(sub, key, depth + 1);
                    let add = flat_table(sub, key, depth + 1).0;
                    assert forall|j: int| 0 <= j < add.len() implies has_prefix(
                        #[trigger] add[j].0,
                        prefix + "."@,
                    ) by {
                        assert(key + "."@ =~= (prefix + "."@) + (k + "."@));
                        lemma_prefix_of_prefix(add[j].0, prefix + "."@, k + "."@);
                    }
                }
            },
        }
        let all = flat_table(es, prefix, depth).0;
        assert forall|i: int| 0 <= i < all.len() implies has_prefix(#[trigger] all[i].0, prefix + "."@) by {
            if i >= before.len() {
                match es[es.len() - 1].1 {
                    TomlTree::Leaf(v) => {
                        assert(all[i].0 == key);
                    },
                    TomlTree::Table(sub) => {
                        let add = flat_table(sub, key, depth + 1).0;
                        if depth < MAX_TOML_DEPTH {
                            assert(all[i] == add[i - before.len()]);
                        }
                    },
                }
            } else {
                assert(all[i] == before[i]);
            }
        }
    }
}

/// The key `prefix.k` (or `k` without a prefix).
fn dotted_key(prefix: &str, k: &str) -> (r: String)
    ensures
        r@ == dotted(prefix@, k@),
{
    if prefix.unicode_len() == 0 {
        k.to_string()
    } else {
        let mut r = String::from_str(prefix);
        r.append(".");
        r.append(k);
        proof {
            reveal_strlit(".");
        }
        r
    }
}

/// Inserts the values of `t` under `prefix` into `values`; returns whether
/// a table was skipped for being nested too deep.
fn collect_into(
    t: &TomlTable,
    prefix: &str,
    depth: usize,
    file_idx: usize,
    values: &mut ConfigValues,
) -> (pruned: bool)
    requires
        depth <= MAX_TOML_DEPTH,
    ensures
        config_entries(*final(values)) == insert_all(
            config_entries(*old(values)),
            flat_table(table_view(*t), prefix@, depth as nat).0,
            file_idx,
        ),
        pruned == flat_table(table_view(*t), prefix@, depth as nat).1,
    decreases MAX_TOML_DEPTH - depth,
{
    let ghost es = table_view(*t);
    let ghost start = config_entries(*values);
    proof {
        lemma_table_view(*t);
        assert(es.take(0) =~= Seq::<(Seq<char>, TomlTree)>::empty());
    }
    let mut pruned = false;
    let mut i: usize = 0;
    while i < t.entries.len()
        invariant
            0 <= i <= t.entries@.len(),
            depth <= MAX_TOML_DEPTH,
            es == table_view(*t),
            es.len() == t.entries@.len(),
            forall|j: int|
                0 <= j < t.entries@.len() ==> #[trigger] es[j] == (
                    t.entries@[j].0@,
                    node_view(t.entries@[j].1),
                ),
            config_entries(*values) == insert_all(
                start,
                flat_table(es.take(i as int), prefix@, depth as nat).0,
                file_idx,
            ),
            pruned == flat_table(es.take(i as int), prefix@, depth as nat).1,
        decreases t.entries@.len() - i,
    {
        let ghost prev = es.take(i as int);
        let ghost next = es.take(i + 1);
        proof {
            assert(next.subrange(0, next.len() - 1) =~= prev);
            assert(next[next.len() - 1] == es[i as int]);
        }
        let key = dotted_key(prefix, t.entries[i].0.as_str());
        match &t.entries[i].1 {
            TomlNode::Leaf(v) => {
                let ghost before = config_entries(*values);
                config_values_insert(values, key, (v.clone(), file_idx));
                proof {
                    let pb = flat_table(prev, prefix@, depth as nat).0;
                    let add = seq![(dotted(prefix@, es[i as int].0), *v)];
                    assert(es[i as int].1 == TomlTree::Leaf(*v));
                    assert(flat_table(next, prefix@, depth as nat).0 == pb + add);
                    assert(add.drop_last() =~= Seq::<(Seq<char>, ConfigValue)>::empty());
                    assert(insert_all(insert_all(start, pb, file_idx), add.drop_last(), file_idx)
                        == insert_all(start, pb, file_idx));
                    lemma_insert_all_concat(start, pb, add, file_idx);
                }
            },
            TomlNode::Table(sub) => {
                proof {
                    assert(node_view(TomlNode::Table(*sub)) == TomlTree::Table(table_view(*sub)));
                }
                if depth >= MAX_TOML_DEPTH {
                    pruned = true;
                    proof {
                        let pb = flat_table(prev, prefix@, depth as nat).0;
                        assert(es[i as int].1 == TomlTree::Table(table_view(*sub)));
                        assert(pb + Seq::<(Seq<char>, ConfigValue)>::empty() =~= pb);
                        assert(flat_table(next, prefix@, depth as nat).0 == pb);
                    }
                } else {
                    let ghost before = config_entries(*values);
                    let p = collect_into(sub, key.as_str(), depth + 1, file_idx, values);
                    pruned = pruned || p;
                    proof {
                        let pb = flat_table(prev, prefix@, depth as nat).0;
                        let add = flat_table(table_view(*sub), key@, (depth + 1) as nat).0;
                        assert(es[i as int].1 == TomlTree::Table(table_view(*sub)));
                        assert(flat_table(next, prefix@, depth as nat).0 == pb + add);
                        lemma_insert_all_concat(start, pb, add, file_idx);
                    }
                }
            },
        }
        i += 1;
    }
    proof {
        assert(es.take(t.entries@.len() as int) =~= es);
    }
    pruned
}

/// The values of a parsed configuration file (its top-level table `table`)
/// under the key prefix `prefix`, each tagged with the file's index
/// `file_idx`, in document order; tables nested deeper than
/// [`MAX_TOML_DEPTH`] levels are skipped and the traversal reported as
/// pruned.
pub fn collect_values(table: &TomlTable, prefix: &str, file_idx: usize) -> (r: (
    TomlFileData,
    TraversalResult,
))
    ensures
        config_entries(r.0.values) == insert_all(
            Seq::empty(),
            flat_table(table_view(*table), prefix@, 0).0,
            file_idx,
        ),
        r.0.includes@.len() == 0,
        (r.1 == TraversalResult::Pruned) == flat_table(table_view(*table), prefix@, 0).1,
{
    let mut values = config_values_new();
    let pruned = collect_into(table, prefix, 0, file_idx, &mut values);
    let result = if pruned {
        TraversalResult::Pruned
    } else {
        TraversalResult::Full
    };
    (TomlFileData { includes: Vec::new(), values }, result)
}

/// `parts` joined with dots.
pub open spec fn dot_join(parts: Seq<Seq<char>>) -> Seq<char>
    decreases parts.len(),
{
    if parts.len() == 0 {
        Seq::empty()
    } else if parts.len() == 1 {
        parts[0]
    } else {
        dot_join(parts.drop_last()) + "."@ + parts.last()
    }
}

/// Joining `a, p0, p1, ...` is joining `a.p0, p1, ...`.
proof fn lemma_dot_join_head(a: Seq<char>, path: Seq<Seq<char>>)
    requires
        path.len() >= 1,
    ensures
        dot_join(seq![a] + path) == dot_join(seq![a + "."@ + path[0]] + path.drop_first()),
    decreases path.len(),
{
    let c = a + "."@ + path[0];
    if path.len() == 1 {
        assert(seq![a] + path =~= seq![a, path[0]]);
        assert(seq![a, path[0]].drop_last() =~= seq![a]);
        assert(dot_join(seq![a]) == a);
        assert(dot_join(seq![a, path[0]]) == a + "."@ + path[0]);
        assert(seq![c] + path.drop_first() =~= seq![c]);
        assert(dot_join(seq![c]) == c);
    } else {
        let pl = path.drop_last();
        lemma_dot_join_head(a, pl);
        assert((seq![a] + path).drop_last() =~= seq![a] + pl);
        assert((seq![c] + path.drop_first()).drop_last() =~= seq![c] + pl.drop_first());
        assert((seq![a] + path).last() == path.last());
        assert((seq![c] + path.drop_first()).last() == path.last());
        assert(pl[0] == path[0]);
        assert(dot_join(seq![a] + path) == dot_join(seq![a] + pl) + "."@ + path.last());
        assert(dot_join(seq![c] + path.drop_first()) == dot_join(seq![c] + pl.drop_first()) + "."@
            + path.last());
    }
}

/// Flattening is complete: every value that a table holds at a path of
/// nested tables `t1 .. tn` and key `k` (within [`MAX_TOML_DEPTH`] levels)
/// appears in the flattened values under the key `prefix.t1. ... .tn.k`,
/// each table's name in its place.
pub proof fn law_flat_complete(
    es: Seq<(Seq<char>, TomlTree)>,
    prefix: Seq<char>,
    depth: nat,
    path: Seq<Seq<char>>,
    v: ConfigValue,
)
    requires
        prefix.len() > 0,
        leaf_at(es, path) == Some(v),
        depth + path.len() <= MAX_TOML_DEPTH + 1,
    ensures
        flat_table(es, prefix, depth).0.contains((dot_join(seq![prefix] + path), v)),
    decreases es,
{
    let n = es.len() as int;
    let k0 = path[0];
    if n == 0 {
        crate::assoc::lemma_find_key(es, k0);
        assert(false);
    }
    let init = es.subrange(0, n - 1);
    assert(decreases_to!(es => init));
    assert(init =~= es.drop_last());
    let before = flat_table(init, prefix, depth).0;
    let key = dotted(prefix, es[n - 1].0);
    let whole = flat_table(es, prefix, depth).0;
    let target = (dot_join(seq![prefix] + path), v);
    if find_key(init, k0) is Some {
        crate::assoc::lemma_find_key(init, k0);
        let i = find_key(init, k0)->0;
        assert(find_key(es, k0) == Some(i));
        assert(lookup(es, k0) == lookup(init, k0));
        assert(leaf_at(init, path) == Some(v));
        law_flat_complete(init, prefix, depth, path, v);
        let j = choose|j: int| 0 <= j < before.len() && before[j] == target;
        assert(whole[j] == target);
    } else {
        assert(es.last().0 == k0) by {
            crate::assoc::lemma_find_key(es, k0);
        }
        assert(find_key(es, k0) == Some(n - 1));
        assert(lookup(es, k0) == Some(es[n - 1].1));
        match es[n - 1].1 {
            TomlTree::Leaf(w) => {
                assert(path.len() == 1);
                assert(w == v);
                assert(seq![prefix] + path =~= seq![prefix, k0]);
                assert(seq![prefix, k0].drop_last() =~= seq![prefix]);
                assert(dot_join(seq![prefix]) == prefix);
                assert(dot_join(seq![prefix, k0]) == prefix + "."@ + k0);
                assert(dot_join(seq![prefix] + path) == prefix + "."@ + k0);
                assert(whole[before.len() as int] == target);
            },
            TomlTree::Table(sub) => {
                if path.len() == 1 {
                    assert(leaf_at(sub, path.drop_first()) is None);
                }
                assert(path.len() >= 2);
                assert(depth < MAX_TOML_DEPTH);
                assert(decreases_to!(es => es[n - 1]));
                assert(decreases_to!(es[n - 1] => es[n - 1].1));
                assert(leaf_at(sub, path.drop_first()) == Some(v));
                law_flat_complete(sub, key, depth + 1, path.drop_first(), v);
                lemma_dot_join_head(prefix, path);
                let add = flat_table(sub, key, depth + 1).0;
                let j = choose|j: int| 0 <= j < add.len() && add[j] == (
                    dot_join(seq![key] + path.drop_first()),
                    v,
                );
                assert(whole[before.len() + j] == target);
            },
        }
    }
}

} // verus!
