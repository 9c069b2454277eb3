//! Reading a configuration file: the TOML text is parsed by the `toml`
//! crate, and the parsed document is walked into the library's tables.
use vstd::prelude::*;

use crate::arcella_core::collect::{collect_values, flat_table, insert_all};
use crate::arcella_core::config::TomlFileData;
use crate::arcella_core::error::ArcellaError;
use crate::arcella_core::fs::TraversalResult;
use crate::arcella_core::subtree::{lemma_table_view, node_view, part_views, table_view, TomlNode, TomlTable, TomlTree};
use crate::arcella_types::config::{config_entries, ConfigValue};
use crate::assoc::{find_key, lemma_find_key};
use crate::text::same_text;

verus! {

/// The model of a parsed TOML value.
pub enum TomlItem {
    /// A string, integer, float (as its bit pattern) or boolean.
    Leaf(ConfigValue),
    /// A table, as its keyed entries in the table's order.
    Table(Seq<(Seq<char>, TomlItem)>),
    /// An array of values.
    Array(Seq<TomlItem>),
    /// A date or time.
    Other,
}

/// The entries of a parsed TOML table, in the order its iterator gives them.
pub uninterp spec fn toml_table_entries(t: toml::Table) -> Seq<(Seq<char>, TomlItem)>;

/// What a parsed TOML value holds.
pub uninterp spec fn toml_value_item(v: toml::Value) -> TomlItem;

/// What parsing `text` as a TOML table gives: the entries of the table, or
/// the text of the parse error.
pub uninterp spec fn spec_toml_parse(text: Seq<char>) -> Result<Seq<(Seq<char>, TomlItem)>, Seq<char>>;

/// A parsed value, one level deep: a scalar converted to a [`ConfigValue`], or a
/// reference to the nested table or array.
pub enum TomlEntry<'a> {
    /// A string, integer, float or boolean.
    Leaf(ConfigValue),
    /// A nested table.
    Table(&'a toml::Table),
    /// An array.
    Array(&'a Vec<toml::Value>),
    /// A date or time.
    Other,
}

/// Parses `text` as a TOML document with `str::parse::<toml::Table>`; a
/// failure is reported with the error's `Display` text.
///
/// Claimed of `toml`: the outcome (the table's entries, or the message) is a
/// function of the text. Which texts parse is not stated: that is the TOML
/// grammar, which the crate implements.
#[verifier::external_body]
fn toml_parse(text: &str) -> (r: Result<toml::Table, String>)
    ensures
        match r {
            Ok(t) => spec_toml_parse(text@) == Ok::<Seq<(Seq<char>, TomlItem)>, Seq<char>>(
                toml_table_entries(t),
            ),
            Err(e) => spec_toml_parse(text@) == Err::<Seq<(Seq<char>, TomlItem)>, Seq<char>>(e@),
        },
{
    text.parse::<toml::Table>().map_err(|e| e.to_string())
}

/// The number of entries of `t`, with `toml::map::Map::len`: as many as its
/// iterator yields.
#[verifier::external_body]
fn toml_table_len(t: &toml::Table) -> (r: usize)
    ensures
        r == toml_table_entries(*t).len(),
{
    t.len()
}

/// The key and value of the `i`-th entry of `t`, as `toml::map::Map::iter`
/// yields them (the entries' order itself is not stated).
#[verifier::external_body]
fn toml_table_entry(t: &toml::Table, i: usize) -> (r: (String, &toml::Value))
    requires
        i < toml_table_entries(*t).len(),
    ensures
        r.0@ == toml_table_entries(*t)[i as int].0,
        toml_value_item(*r.1) == toml_table_entries(*t)[i as int].1,
{
    let (k, v) = t.iter().nth(i).unwrap();
    (k.clone(), v)
}

/// Tells the variants of a `toml::Value` apart, one arm each: a string,
/// integer or boolean is carried as it is, a float as its bit pattern
/// (`f64::to_bits`), a date or time as nothing, and an array or table by
/// reference.
#[verifier::external_body]
fn toml_value_entry(v: &toml::Value) -> (r: TomlEntry<'_>)
    ensures
        match r {
            TomlEntry::Leaf(x) => toml_value_item(*v) == TomlItem::Leaf(x),
            TomlEntry::Table(t) => toml_value_item(*v) == TomlItem::Table(toml_table_entries(*t)),
            TomlEntry::Array(a) => toml_value_item(*v) == TomlItem::Array(
                a@.map_values(|x: toml::Value| toml_value_item(x)),
            ),
            TomlEntry::Other => toml_value_item(*v) == TomlItem::Other,
        },
{
    match v {
        toml::Value::String(s) => TomlEntry::Leaf(ConfigValue::String(s.clone())),
        toml::Value::Integer(i) => TomlEntry::Leaf(ConfigValue::Integer(*i)),
        toml::Value::Float(f) => TomlEntry::Leaf(ConfigValue::Float(f.to_bits())),
        toml::Value::Boolean(b) => TomlEntry::Leaf(ConfigValue::Boolean(*b)),
        toml::Value::Datetime(_) => TomlEntry::Other,
        toml::Value::Array(a) => TomlEntry::Array(a),
        toml::Value::Table(t) => TomlEntry::Table(t),
    }
}

/// The configuration tree of a document: its values and nested tables, in
/// order. Arrays and dates are not configuration values and are left out.
pub open spec fn doc_tree(es: Seq<(Seq<char>, TomlItem)>) -> Seq<(Seq<char>, TomlTree)>
    decreases es,
{
    if es.len() == 0 {
        Seq::empty()
    } else {
        proof {
            assert(decreases_to!(es => es.subrange(0, es.len() - 1)));
        }
        let before = doc_tree(es.subrange(0, es.len() - 1));
        let key = es[es.len() - 1].0;
        match es[es.len() - 1].1 {
            TomlItem::Leaf(v) => before.push((key, TomlTree::Leaf(v))),
            TomlItem::Table(sub) => {
                proof {
                    assert(decreases_to!(es => es[es.len() - 1]));
                    assert(decreases_to!(es[es.len() - 1] => es[es.len() - 1].1));
                }
                before.push((key, TomlTree::Table(doc_tree(sub))))
            },
            _ => before,
        }
    }
}

/// The strings among `items`, in order.
pub open spec fn string_items(items: Seq<TomlItem>) -> Seq<Seq<char>>
    decreases items.len(),
{
    if items.len() == 0 {
        Seq::empty()
    } else {
        let before = string_items(items.drop_last());
        match items.last() {
            TomlItem::Leaf(ConfigValue::String(s)) => before.push(s@),
            _ => before,
        }
    }
}

/// The include patterns of a document: the strings of its top-level
/// `includes` array; none where there is no such array.
pub open spec fn include_list(es: Seq<(Seq<char>, TomlItem)>) -> Seq<Seq<char>> {
    match find_key(es, "includes"@) {
        Some(i) => match es[i].1 {
            TomlItem::Array(items) => string_items(items),
            _ => Seq::empty(),
        },
        None => Seq::empty(),
    }
}

/// The tree of configuration values of a parsed table.
fn convert_table(t: &toml::Table) -> (r: TomlTable)
    ensures
        table_view(r) == doc_tree(toml_table_entries(*t)),
    decreases toml_table_entries(*t),
{
    let ghost es = toml_table_entries(*t);
    let n = toml_table_len(t);
    let mut entries: Vec<(String, TomlNode)> = Vec::new();
    let mut i: usize = 0;
    proof {
        lemma_table_view(TomlTable { entries: entries });
        assert(table_view(TomlTable { entries: entries }) =~= doc_tree(es.subrange(0, 0)));
    }
    while i < n
        invariant
            es == toml_table_entries(*t),
            n == es.len(),
            i <= n,
            table_view(TomlTable { entries: entries }) == doc_tree(es.subrange(0, i as int)),
        decreases n - i,
    {
        let (k, v) = toml_table_entry(t, i);
        let ghost before = entries;
        proof {
            assert(es.subrange(0, i + 1).subrange(0, i as int) =~= es.subrange(0, i as int));
            assert(es.subrange(0, i + 1)[i as int] == es[i as int]);
        }
        match toml_value_entry(v) {
            TomlEntry::Leaf(x) => {
                entries.push((k, TomlNode::Leaf(x)));
            },
            TomlEntry::Table(sub) => {
                proof {
                    assert(decreases_to!(es => es[i as int]));
                    assert(decreases_to!(es[i as int] => es[i as int].1));
                    assert(decreases_to!(es[i as int].1 => es[i as int].1->Table_0));
                }
                let st = convert_table(sub);
                entries.push((k, TomlNode::Table(st)));
            },
            _ => {},
        }
        proof {
            lemma_table_view(TomlTable { entries: before });
            lemma_table_view(TomlTable { entries: entries });
            let prev = table_view(TomlTable { entries: before });
            let cur = table_view(TomlTable { entries: entries });
            if entries@.len() > before@.len() {
                assert(cur =~= prev.push((k@, node_view(entries@[before@.len() as int].1))));
            } else {
                assert(cur =~= prev);
            }
        }
        i = i + 1;
    }
    proof {
        assert(es.subrange(0, n as int) =~= es);
    }
    TomlTable { entries }
}

/// The strings among the values of `a`, in order.
fn string_values(a: &Vec<toml::Value>) -> (r: Vec<String>)
    ensures
        part_views(r@) == string_items(a@.map_values(|x: toml::Value| toml_value_item(x))),
{
    let ghost items = a@.map_values(|x: toml::Value| toml_value_item(x));
    let mut out: Vec<String> = Vec::new();
    let mut j: usize = 0;
    proof {
        assert(part_views(out@) =~= string_items(items.take(0)));
    }
    while j < a.len()
        invariant
            items == a@.map_values(|x: toml::Value| toml_value_item(x)),
            j <= a@.len(),
            part_views(out@) == string_items(items.take(j as int)),
        decreases a@.len() - j,
    {
        let ghost before = out@;
        proof {
            assert(items.take(j + 1).drop_last() =~= items.take(j as int));
            assert(items.take(j + 1).last() == toml_value_item(a@[j as int]));
        }
        match toml_value_entry(&a[j]) {
            TomlEntry::Leaf(ConfigValue::String(s)) => {
                out.push(s);
                proof {
                    assert(part_views(out@) =~= part_views(before).push(out@[before.len() as int]@));
                }
            },
            _ => {},
        }
        j = j + 1;
    }
    proof {
        assert(items.take(a@.len() as int) =~= items);
    }
    out
}

/// The include patterns of a parsed document.
fn includes_of(t: &toml::Table) -> (r: Vec<String>)
    ensures
        part_views(r@) == include_list(toml_table_entries(*t)),
{
    let ghost es = toml_table_entries(*t);
    proof {
        lemma_find_key(es, "includes"@);
    }
    let n = toml_table_len(t);
    let mut i: usize = 0;
    while i < n
        invariant
            es == toml_table_entries(*t),
            n == es.len(),
            i <= n,
            forall|j: int| 0 <= j < i ==> (#[trigger] es[j]).0 != "includes"@,
            find_key(es, "includes"@) matches Some(f) ==> 0 <= f < es.len() && es[f].0 == "includes"@
                && forall|j: int| 0 <= j < f ==> (#[trigger] es[j]).0 != "includes"@,
            find_key(es, "includes"@) is None ==> forall|j: int| 0 <= j < es.len() ==> (#[trigger] es[j]).0 != "includes"@,
        decreases n - i,
    {
        let (k, v) = toml_table_entry(t, i);
        if same_text(k.as_str(), "includes") {
            proof {
                assert(es[i as int].0 == "includes"@);
                if let Some(f) = find_key(es, "includes"@) {
                    if f < i {
                        assert(es[f].0 != "includes"@);
                    }
                    if f > i {
                        assert(es[i as int].0 != "includes"@);
                    }
                }
            }
            return match toml_value_entry(v) {
                TomlEntry::Array(a) => string_values(a),
                _ => Vec::new(),
            };
        }
        i = i + 1;
    }
    proof {
        if let Some(f) = find_key(es, "includes"@) {
            assert(es[f].0 != "includes"@);
        }
    }
    Vec::new()
}

/// The layer of a parsed configuration file: the values of `t` under the
/// `arcella` prefix, each tagged with `file_idx`, and its include patterns;
/// the traversal is reported as pruned where tables nest too deep.
pub fn layer_of_table(t: &toml::Table, file_idx: usize) -> (r: (TomlFileData, TraversalResult))
    ensures
        config_entries(r.0.values) == insert_all(
            Seq::empty(),
            flat_table(doc_tree(toml_table_entries(*t)), "arcella"@, 0).0,
            file_idx,
        ),
        part_views(r.0.includes@) == include_list(toml_table_entries(*t)),
        (r.1 == TraversalResult::Pruned) == flat_table(doc_tree(toml_table_entries(*t)), "arcella"@, 0).1,
{
    let tree = convert_table(t);
    let (data, traversal) = collect_values(&tree, "arcella", file_idx);
    let includes = includes_of(t);
    (TomlFileData { includes, values: data.values }, traversal)
}

/// Reads one configuration file: parses `content` as TOML and collects its
/// values under the `arcella` prefix, each tagged with `file_idx`, with the
/// file's include patterns. A document that does not parse is a
/// configuration error carrying the parser's message.
pub fn parse_layer(content: &str, file_idx: usize) -> (r: Result<(TomlFileData, TraversalResult), ArcellaError>)
    ensures
        match spec_toml_parse(content@) {
            Ok(es) => r matches Ok((d, tr)) && config_entries(d.values) == insert_all(
                Seq::empty(),
                flat_table(doc_tree(es), "arcella"@, 0).0,
                file_idx,
            ) && part_views(d.includes@) == include_list(es) && (tr == TraversalResult::Pruned)
                == flat_table(doc_tree(es), "arcella"@, 0).1,
            Err(msg) => r matches Err(ArcellaError::Config(m)) && m@ == msg,
        },
{
    match toml_parse(content) {
        Ok(t) => Ok(layer_of_table(&t, file_idx)),
        Err(msg) => Err(ArcellaError::Config(msg)),
    }
}

} // verus!
