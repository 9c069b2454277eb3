//! Configuration merging and lookup.
//!
//! Layers are merged with strict rules: only keys explicitly marked with
//! `#redef` in a higher-priority layer may be overridden by lower layers, and
//! new keys may only be introduced in the `arcella.custom` and
//! `arcella.modules` namespaces.
use vstd::prelude::*;

use indexmap::IndexMap;

use crate::arcella_core::error::ArcellaError;
use crate::arcella_types::config::{
    config_entries, config_values_get, config_values_get_index, config_values_insert,
    config_values_len, config_values_new, config_values_sort_keys, keys_sorted, ConfigValues, ConfigValue,
};
use crate::assoc::{find_key, lookup, seq_insert};
use crate::paths::{path_eq, path_join, spec_path_eq, spec_path_join};
use crate::text::{
    chars_of, decimal_string, decimal_text, ends_with_chars, has_prefix, has_suffix,
    path_debug_text, same_text, spec_path_debug, starts_with_chars, substring,
};

verus! {

/// Standard prefix for all built-in Arcella configuration keys.
pub const ARCELLA_PREFIX: &'static str = "arcella.";

/// Full prefix for custom configuration keys.
pub const CUSTOM_PREFIX_FULL: &'static str = "arcella.custom";

/// Full prefix for module configuration keys.
pub const MODULES_PREFIX_FULL: &'static str = "arcella.modules";

/// Marker path of the built-in default configuration (not a real file).
pub const DEFAULT_CONFIG_FILENAME: &'static str = "<builtin:default_config.toml>";

/// Name of the main user-editable configuration file.
pub const MAIN_CONFIG_FILENAME: &'static str = "arcella.toml";

/// Suffix that marks keys whose value lower-priority layers may redefine.
pub const REDEF_SUFFIX: &'static str = "#redef";

/// The path of the main configuration file under `config_dir`.
pub open spec fn main_config_path(config_dir: Seq<char>) -> Seq<char> {
    spec_path_join(config_dir, MAIN_CONFIG_FILENAME@)
}

/// The parsed contents of one configuration file.
#[derive(Debug)]
pub struct TomlFileData {
    /// Include patterns of the file.
    pub includes: Vec<String>,
    /// The flattened values of the file.
    pub values: ConfigValues,
}

/// A non-fatal problem found while loading configuration.
#[derive(Debug, Clone)]
pub enum ConfigLoadWarning {
    /// A value was ignored.
    ValueError { key: String, error: String, file: String },
    /// An internal notice (e.g. a file was created).
    Internal(String),
}

/// The textual content of a [`ConfigLoadWarning`].
pub enum WarningView {
    /// Key, error message and file of an ignored value.
    ValueError(Seq<char>, Seq<char>, Seq<char>),
    /// An internal notice.
    Internal(Seq<char>),
}

/// The view of a warning.
pub open spec fn warning_view(w: ConfigLoadWarning) -> WarningView {
    match w {
        ConfigLoadWarning::ValueError { key, error, file } => WarningView::ValueError(
            key@,
            error@,
            file@,
        ),
        ConfigLoadWarning::Internal(m) => WarningView::Internal(m@),
    }
}

/// The views of a list of warnings.
pub open spec fn warnings_view(ws: Seq<ConfigLoadWarning>) -> Seq<WarningView> {
    ws.map_values(|w: ConfigLoadWarning| warning_view(w))
}

/// A value being resolved during merging.
#[derive(Debug)]
pub struct ResolvedValue {
    /// The value.
    pub value: ConfigValue,
    /// Index of the layer that set it.
    pub source_config_idx: usize,
    /// Index of the file that set it.
    pub source_file_idx: usize,
    /// Index of the file that granted redefinition, if any.
    pub redef_allowed_by: Option<usize>,
}

impl Clone for ResolvedValue {
    fn clone(&self) -> (r: Self)
        ensures
            r == *self,
    {
        ResolvedValue {
            value: self.value.clone(),
            source_config_idx: self.source_config_idx,
            source_file_idx: self.source_file_idx,
            redef_allowed_by: self.redef_allowed_by,
        }
    }
}

/// Values being resolved, by key, in insertion order.
pub type ResolvedValues = IndexMap<String, ResolvedValue>;

/// The entries of a map of resolved values, in the map's order.
pub uninterp spec fn resolved_entries(m: IndexMap<String, ResolvedValue>) -> Seq<
    (Seq<char>, ResolvedValue),
>;

/// Creates an empty map with `IndexMap::new`.
#[verifier::external_body]
fn resolved_new() -> (r: ResolvedValues)
    ensures
        resolved_entries(r) == Seq::<(Seq<char>, ResolvedValue)>::empty(),
{
    IndexMap::new()
}

/// Inserts with `IndexMap::insert`: an existing key keeps its position and
/// gets the new value; a new key goes last.
#[verifier::external_body]
fn resolved_insert(m: &mut ResolvedValues, key: String, value: ResolvedValue)
    ensures
        resolved_entries(*final(m)) == seq_insert(resolved_entries(*old(m)), key@, value),
{
    m.insert(key, value);
}

/// The number of entries, with `IndexMap::len`.
#[verifier::external_body]
fn resolved_len(m: &ResolvedValues) -> (r: usize)
    ensures
        r == resolved_entries(*m).len(),
{
    m.len()
}

/// A copy of the entry at position `i`, with `IndexMap::get_index`.
#[verifier::external_body]
fn resolved_get_index(m: &ResolvedValues, i: usize) -> (r: (String, ResolvedValue))
    requires
        i < resolved_entries(*m).len(),
    ensures
        r.0@ == resolved_entries(*m)[i as int].0,
        r.1 == resolved_entries(*m)[i as int].1,
{
    let (k, v) = m.get_index(i).unwrap();
    (k.clone(), v.clone())
}

/// A copy of the value stored under `key`, with `IndexMap::get`.
#[verifier::external_body]
fn resolved_get(m: &ResolvedValues, key: &str) -> (r: Option<ResolvedValue>)
    ensures
        r == lookup(resolved_entries(*m), key@),
{
    m.get(key).cloned()
}

// ---------------------------------------------------------------------------
// The merge rules
// ---------------------------------------------------------------------------

/// A key without its `#redef` marker, and whether it had one.
pub open spec fn strip_redef(k: Seq<char>) -> (Seq<char>, bool) {
    if has_suffix(k, REDEF_SUFFIX@) {
        (k.take(k.len() - REDEF_SUFFIX@.len()), true)
    } else {
        (k, false)
    }
}

/// Keys in the `arcella.custom` and `arcella.modules` namespaces (the
/// prefix followed by a dot) may be added by any layer.
pub open spec fn is_newable(k: Seq<char>) -> bool {
    has_prefix(k, CUSTOM_PREFIX_FULL@ + "."@) || has_prefix(k, MODULES_PREFIX_FULL@ + "."@)
}

/// The path of file `idx`, or `unknown`.
pub open spec fn file_label(files: Seq<Seq<char>>, idx: int) -> Seq<char> {
    if 0 <= idx < files.len() {
        files[idx]
    } else {
        "unknown"@
    }
}

/// The warning for a value of file `source_file_idx` ignored because layer
/// `layer` did not mark `key` with `#redef`.
pub open spec fn no_redef_warning(
    key: Seq<char>,
    layer: nat,
    files: Seq<Seq<char>>,
    source_file_idx: int,
) -> WarningView {
    let p = file_label(files, source_file_idx);
    WarningView::ValueError(
        key,
        "Value from file "@ + spec_path_debug(p) + " ignored due to no #redef flag in layer "@
            + decimal_text(layer),
        p,
    )
}

/// The warning for a new key of layer `layer` outside the extensible sections.
pub open spec fn missing_in_default_warning(key: Seq<char>, layer: nat) -> WarningView {
    WarningView::ValueError(
        key,
        "Value from layer "@ + decimal_text(layer) + " ignored due to missing in default config"@,
        "layer_"@ + decimal_text(layer) + ".toml"@,
    )
}

/// Layer entries, keyed.
pub type Entries = Seq<(Seq<char>, (ConfigValue, usize))>;

/// Resolution state: resolved values and warnings so far.
pub type Stage1 = (Seq<(Seq<char>, ResolvedValue)>, Seq<WarningView>);

/// Folds one layer entry into the resolution state.
pub open spec fn resolve_entry(
    st: Stage1,
    config_idx: usize,
    key: Seq<char>,
    value: ConfigValue,
    file_idx: usize,
    files: Seq<Seq<char>>,
) -> Stage1 {
    let actual = strip_redef(key).0;
    let is_redef = strip_redef(key).1;
    match lookup(st.0, actual) {
        Some(e) => if !is_redef {
            (
                seq_insert(
                    st.0,
                    actual,
                    ResolvedValue {
                        value,
                        source_config_idx: config_idx,
                        source_file_idx: file_idx,
                        redef_allowed_by: e.redef_allowed_by,
                    },
                ),
                st.1.push(no_redef_warning(actual, config_idx as nat, files, e.source_file_idx as int)),
            )
        } else {
            (
                seq_insert(
                    st.0,
                    actual,
                    ResolvedValue { redef_allowed_by: Some(file_idx), ..e },
                ),
                st.1,
            )
        },
        None => (
            seq_insert(
                st.0,
                actual,
                ResolvedValue {
                    value,
                    source_config_idx: config_idx,
                    source_file_idx: file_idx,
                    redef_allowed_by: None,
                },
            ),
            st.1,
        ),
    }
}

/// Folds the entries of one layer, in order.
pub open spec fn resolve_layer(
    st: Stage1,
    config_idx: usize,
    entries: Entries,
    files: Seq<Seq<char>>,
) -> Stage1
    decreases entries.len(),
{
    if entries.len() == 0 {
        st
    } else {
        resolve_entry(
            resolve_layer(st, config_idx, entries.drop_last(), files),
            config_idx,
            entries.last().0,
            entries.last().1.0,
            entries.last().1.1,
            files,
        )
    }
}

/// Folds the layers `layers.len() - 1` down to `m` (lowest priority first).
pub open spec fn resolve_layers(layers: Seq<Entries>, m: int, files: Seq<Seq<char>>) -> Stage1
    decreases layers.len() - m,
{
    if m < 0 || m >= layers.len() {
        (Seq::empty(), Seq::empty())
    } else {
        resolve_layer(resolve_layers(layers, m + 1, files), m as usize, layers[m], files)
    }
}

/// The default values, each attributed to the default file.
pub open spec fn default_values(entries: Entries, default_idx: usize) -> Entries
    decreases entries.len(),
{
    if entries.len() == 0 {
        Seq::empty()
    } else {
        seq_insert(
            default_values(entries.drop_last(), default_idx),
            entries.last().0,
            (entries.last().1.0, default_idx),
        )
    }
}

/// Merge state: final values and warnings so far.
pub type Stage2 = (Entries, Seq<WarningView>);

/// Merges one resolved value over the defaults.
pub open spec fn apply_resolved(
    st: Stage2,
    key: Seq<char>,
    pv: ResolvedValue,
    main_idx: usize,
    files: Seq<Seq<char>>,
) -> Stage2 {
    if lookup(st.0, key) is Some {
        if pv.source_file_idx == main_idx || pv.redef_allowed_by == Some(main_idx) {
            (seq_insert(st.0, key, (pv.value, pv.source_file_idx)), st.1)
        } else {
            (st.0, st.1.push(no_redef_warning(key, 0, files, pv.source_file_idx as int)))
        }
    } else if is_newable(key) {
        (seq_insert(st.0, key, (pv.value, pv.source_file_idx)), st.1)
    } else {
        (st.0, st.1.push(missing_in_default_warning(key, pv.source_config_idx as nat)))
    }
}

/// Merges the resolved values, in order.
pub open spec fn apply_all_resolved(
    st: Stage2,
    resolved: Seq<(Seq<char>, ResolvedValue)>,
    main_idx: usize,
    files: Seq<Seq<char>>,
) -> Stage2
    decreases resolved.len(),
{
    if resolved.len() == 0 {
        st
    } else {
        apply_resolved(
            apply_all_resolved(st, resolved.drop_last(), main_idx, files),
            resolved.last().0,
            resolved.last().1,
            main_idx,
            files,
        )
    }
}

/// The merged values and the warnings of merging `layers` over `defaults`.
pub open spec fn spec_merge(
    defaults: Entries,
    layers: Seq<Entries>,
    files: Seq<Seq<char>>,
    main_idx: usize,
    default_idx: usize,
) -> Stage2 {
    let st1 = resolve_layers(layers, 0, files);
    apply_all_resolved((default_values(defaults, default_idx), st1.1), st1.0, main_idx, files)
}

/// The entries of each layer.
pub open spec fn layer_entries(configs: Seq<TomlFileData>) -> Seq<Entries> {
    configs.map_values(|c: TomlFileData| config_entries(c.values))
}

/// The views of a list of paths.
pub open spec fn path_views(files: Seq<String>) -> Seq<Seq<char>> {
    files.map_values(|f: String| f@)
}

/// Index of the first path of `files` that names the same path as `p`
/// (compared component by component, as `Path`'s `==` does).
pub open spec fn path_index(files: Seq<Seq<char>>, p: Seq<char>) -> Option<int> {
    if exists|i: int|
        0 <= i < files.len() && spec_path_eq(files[i], p) && forall|j: int|
            0 <= j < i ==> !spec_path_eq(files[j], p) {
        Some(
            choose|i: int|
                0 <= i < files.len() && spec_path_eq(files[i], p) && forall|j: int|
                    0 <= j < i ==> !spec_path_eq(files[j], p),
        )
    } else {
        None
    }
}

/// The index found by [`path_index`] names the same path as `p`, and no
/// earlier one does.
pub proof fn lemma_path_index(files: Seq<Seq<char>>, p: Seq<char>)
    ensures
        path_index(files, p) matches Some(i) ==> 0 <= i < files.len() && spec_path_eq(files[i], p)
            && forall|j: int| 0 <= j < i ==> !spec_path_eq(#[trigger] files[j], p),
{
}

/// Resolving an entry only appends to the warnings.
pub proof fn lemma_resolve_entry_prefix(
    st: Stage1,
    w0: Seq<WarningView>,
    ci: usize,
    key: Seq<char>,
    value: ConfigValue,
    file_idx: usize,
    files: Seq<Seq<char>>,
)
    ensures
        resolve_entry((st.0, w0 + st.1), ci, key, value, file_idx, files) == (
            resolve_entry(st, ci, key, value, file_idx, files).0,
            w0 + resolve_entry(st, ci, key, value, file_idx, files).1,
        ),
{
    let actual = strip_redef(key).0;
    if let Some(e) = lookup(st.0, actual) {
        assert((w0 + st.1).push(no_redef_warning(actual, ci as nat, files, e.source_file_idx as int))
            =~= w0 + st.1.push(no_redef_warning(actual, ci as nat, files, e.source_file_idx as int)));
    }
}

/// Resolving a layer only appends to the warnings.
pub proof fn lemma_resolve_layer_prefix(
    st: Stage1,
    w0: Seq<WarningView>,
    ci: usize,
    entries: Entries,
    files: Seq<Seq<char>>,
)
    ensures
        resolve_layer((st.0, w0 + st.1), ci, entries, files) == (
            resolve_layer(st, ci, entries, files).0,
            w0 + resolve_layer(st, ci, entries, files).1,
        ),
    decreases entries.len(),
{
    if entries.len() > 0 {
        lemma_resolve_layer_prefix(st, w0, ci, entries.drop_last(), files);
        let mid = resolve_layer(st, ci, entries.drop_last(), files);
        lemma_resolve_entry_prefix(
            mid,
            w0,
            ci,
            entries.last().0,
            entries.last().1.0,
            entries.last().1.1,
            files,
        );
    }
}

/// Merging a resolved value only appends to the warnings.
pub proof fn lemma_apply_resolved_prefix(
    st: Stage2,
    w0: Seq<WarningView>,
    key: Seq<char>,
    pv: ResolvedValue,
    main_idx: usize,
    files: Seq<Seq<char>>,
)
    ensures
        apply_resolved((st.0, w0 + st.1), key, pv, main_idx, files) == (
            apply_resolved(st, key, pv, main_idx, files).0,
            w0 + apply_resolved(st, key, pv, main_idx, files).1,
        ),
{
    assert((w0 + st.1).push(no_redef_warning(key, 0, files, pv.source_file_idx as int)) =~= w0
        + st.1.push(no_redef_warning(key, 0, files, pv.source_file_idx as int)));
    assert((w0 + st.1).push(missing_in_default_warning(key, pv.source_config_idx as nat)) =~= w0
        + st.1.push(missing_in_default_warning(key, pv.source_config_idx as nat)));
}

/// Merging resolved values only appends to the warnings.
pub proof fn lemma_apply_all_prefix(
    st: Stage2,
    w0: Seq<WarningView>,
    resolved: Seq<(Seq<char>, ResolvedValue)>,
    main_idx: usize,
    files: Seq<Seq<char>>,
)
    ensures
        apply_all_resolved((st.0, w0 + st.1), resolved, main_idx, files) == (
            apply_all_resolved(st, resolved, main_idx, files).0,
            w0 + apply_all_resolved(st, resolved, main_idx, files).1,
        ),
    decreases resolved.len(),
{
    if resolved.len() > 0 {
        lemma_apply_all_prefix(st, w0, resolved.drop_last(), main_idx, files);
        let mid = apply_all_resolved(st, resolved.drop_last(), main_idx, files);
        lemma_apply_resolved_prefix(mid, w0, resolved.last().0, resolved.last().1, main_idx, files);
    }
}

// ---------------------------------------------------------------------------
// Laws of merging
// ---------------------------------------------------------------------------

/// Some layer holds `key#redef` from file `f`.
pub open spec fn marks_redef(layers: Seq<Entries>, key: Seq<char>, f: usize) -> bool {
    exists|m: int, j: int|
        0 <= m < layers.len() && 0 <= j < layers[m].len() && strip_redef(
            #[trigger] layers[m][j].0,
        ) == (key, true) && layers[m][j].1.1 == f
}

/// Every redefinition permission recorded in `p` comes from a `#redef` key
/// of the file that granted it.
pub open spec fn redef_sound(p: Seq<(Seq<char>, ResolvedValue)>, layers: Seq<Entries>) -> bool {
    forall|i: int|
        0 <= i < p.len() && (#[trigger] p[i]).1.redef_allowed_by is Some ==> marks_redef(
            layers,
            p[i].0,
            p[i].1.redef_allowed_by->0,
        )
}

proof fn lemma_resolve_entry_sound(
    st: Stage1,
    layers: Seq<Entries>,
    m: int,
    j: int,
    files: Seq<Seq<char>>,
)
    requires
        redef_sound(st.0, layers),
        0 <= m < layers.len(),
        0 <= j < layers[m].len(),
        m <= usize::MAX,
    ensures
        redef_sound(
            resolve_entry(
                st,
                m as usize,
                layers[m][j].0,
                layers[m][j].1.0,
                layers[m][j].1.1,
                files,
            ).0,
            layers,
        ),
{
    let key = layers[m][j].0;
    let actual = strip_redef(key).0;
    let p = st.0;
    let q = resolve_entry(st, m as usize, key, layers[m][j].1.0, layers[m][j].1.1, files).0;
    crate::assoc::lemma_find_key(p, actual);
    assert forall|i: int|
        0 <= i < q.len() && (#[trigger] q[i]).1.redef_allowed_by is Some implies marks_redef(
        layers,
        q[i].0,
        q[i].1.redef_allowed_by->0,
    ) by {
        if i < p.len() && q[i] == p[i] {
        } else {
            assert(q[i].0 == actual);
            if find_key(p, actual) is Some {
                let fi = find_key(p, actual)->0;
                assert(i == fi);
                if !strip_redef(key).1 {
                    assert(q[i].1.redef_allowed_by == p[fi].1.redef_allowed_by);
                } else {
                    assert(strip_redef(layers[m][j].0) == (q[i].0, true));
                }
            }
        }
    }
}

proof fn lemma_resolve_layer_sound(
    st: Stage1,
    layers: Seq<Entries>,
    m: int,
    n: int,
    files: Seq<Seq<char>>,
)
    requires
        redef_sound(st.0, layers),
        0 <= m < layers.len(),
        0 <= n <= layers[m].len(),
        m <= usize::MAX,
    ensures
        redef_sound(resolve_layer(st, m as usize, layers[m].take(n), files).0, layers),
    decreases n,
{
    if n > 0 {
        assert(layers[m].take(n).drop_last() =~= layers[m].take(n - 1));
        lemma_resolve_layer_sound(st, layers, m, n - 1, files);
        let mid = resolve_layer(st, m as usize, layers[m].take(n - 1), files);
        assert(layers[m].take(n).last() == layers[m][n - 1]);
        lemma_resolve_entry_sound(mid, layers, m, n - 1, files);
    }
}

proof fn lemma_resolve_layers_sound(layers: Seq<Entries>, m: int, files: Seq<Seq<char>>)
    requires
        layers.len() <= usize::MAX,
    ensures
        redef_sound(resolve_layers(layers, m, files).0, layers),
    decreases layers.len() - m,
{
    if 0 <= m < layers.len() {
        lemma_resolve_layers_sound(layers, m + 1, files);
        lemma_resolve_layer_sound(
            resolve_layers(layers, m + 1, files),
            layers,
            m,
            layers[m].len() as int,
            files,
        );
        assert(layers[m].take(layers[m].len() as int) =~= layers[m]);
    }
}

proof fn lemma_default_values(entries: Entries, default_idx: usize)
    ensures
        crate::assoc::key_set(default_values(entries, default_idx)) == crate::assoc::key_set(
            entries,
        ),
        forall|i: int|
            0 <= i < default_values(entries, default_idx).len() ==> (#[trigger] default_values(
                entries,
                default_idx,
            )[i]).1.1 == default_idx,
    decreases entries.len(),
{
    if entries.len() > 0 {
        let prev = entries.drop_last();
        lemma_default_values(prev, default_idx);
        crate::assoc::lemma_insert_keys(
            default_values(prev, default_idx),
            entries.last().0,
            (entries.last().1.0, default_idx),
        );
        assert(crate::assoc::key_set(entries) =~= crate::assoc::key_set(prev).insert(
            entries.last().0,
        )) by {
            assert forall|k: Seq<char>|
                #[trigger] crate::assoc::key_set(entries).contains(k) implies crate::assoc::key_set(
                prev,
            ).insert(entries.last().0).contains(k) by {
                let i = choose|i: int| 0 <= i < entries.len() && (#[trigger] entries[i]).0 == k;
                if i < entries.len() - 1 {
                    assert(prev[i].0 == k);
                }
            }
            assert forall|k: Seq<char>|
                #[trigger] crate::assoc::key_set(prev).contains(k) implies crate::assoc::key_set(
                entries,
            ).contains(k) by {
                let i = choose|i: int| 0 <= i < prev.len() && (#[trigger] prev[i]).0 == k;
                assert(entries[i].0 == k);
            }
            assert(entries[entries.len() - 1].0 == entries.last().0);
        }
        let pd = default_values(prev, default_idx);
        let d = default_values(entries, default_idx);
        assert(d == seq_insert(pd, entries.last().0, (entries.last().1.0, default_idx)));
        assert forall|i: int| 0 <= i < d.len() implies (#[trigger] d[i]).1.1 == default_idx by {
            crate::assoc::lemma_find_key(pd, entries.last().0);
            if find_key(pd, entries.last().0) is Some {
                let fi = find_key(pd, entries.last().0)->0;
                assert(d == pd.update(fi, (entries.last().0, (entries.last().1.0, default_idx))));
                if i != fi {
                    assert(d[i] == pd[i]);
                }
            } else {
                assert(d == pd.push((entries.last().0, (entries.last().1.0, default_idx))));
                if i < pd.len() {
                    assert(d[i] == pd[i]);
                }
            }
        }
    }
}

/// The stage-2 invariant behind [`law_merge_redef`].
pub open spec fn stage2_ok(
    f: Entries,
    defaults: Entries,
    layers: Seq<Entries>,
    main_idx: usize,
    default_idx: usize,
) -> bool {
    &&& crate::assoc::key_set(defaults).subset_of(crate::assoc::key_set(f))
    &&& forall|k: Seq<char>|
        #[trigger] crate::assoc::key_set(f).contains(k) ==> crate::assoc::key_set(
            defaults,
        ).contains(k) || is_newable(k)
    &&& forall|i: int|
        0 <= i < f.len() && crate::assoc::key_set(defaults).contains((#[trigger] f[i]).0) ==> (
        f[i].1.1 == default_idx || f[i].1.1 == main_idx || marks_redef(layers, f[i].0, main_idx))
}

proof fn lemma_apply_all_ok(
    st: Stage2,
    resolved: Seq<(Seq<char>, ResolvedValue)>,
    defaults: Entries,
    layers: Seq<Entries>,
    main_idx: usize,
    default_idx: usize,
    files: Seq<Seq<char>>,
)
    requires
        stage2_ok(st.0, defaults, layers, main_idx, default_idx),
        redef_sound(resolved, layers),
    ensures
        stage2_ok(
            apply_all_resolved(st, resolved, main_idx, files).0,
            defaults,
            layers,
            main_idx,
            default_idx,
        ),
    decreases resolved.len(),
{
    if resolved.len() > 0 {
        let prev = resolved.drop_last();
        assert forall|i: int|
            0 <= i < prev.len() && (#[trigger] prev[i]).1.redef_allowed_by is Some implies marks_redef(
            layers,
            prev[i].0,
            prev[i].1.redef_allowed_by->0,
        ) by {
            assert(resolved[i] == prev[i]);
        }
        lemma_apply_all_ok(st, prev, defaults, layers, main_idx, default_idx, files);
        let mid = apply_all_resolved(st, prev, main_idx, files);
        let key = resolved.last().0;
        let pv = resolved.last().1;
        assert(resolved[resolved.len() - 1] == resolved.last());
        let f = mid.0;
        let g = apply_resolved(mid, key, pv, main_idx, files).0;
        crate::assoc::lemma_find_key(f, key);
        crate::assoc::lemma_insert_keys(f, key, (pv.value, pv.source_file_idx));
        if g != f {
            assert(g == seq_insert(f, key, (pv.value, pv.source_file_idx)));
            assert forall|i: int|
                0 <= i < g.len() && crate::assoc::key_set(defaults).contains(
                    (#[trigger] g[i]).0,
                ) implies (g[i].1.1 == default_idx || g[i].1.1 == main_idx || marks_redef(
                layers,
                g[i].0,
                main_idx,
            )) by {
                if i < f.len() && g[i] == f[i] {
                } else {
                    assert(g[i].0 == key);
                    if lookup(f, key) is None {
                        assert(!crate::assoc::key_set(f).contains(key));
                    }
                }
            }
            assert(crate::assoc::key_set(defaults).subset_of(crate::assoc::key_set(g)));
        }
    }
}

/// Merging never invents keys outside the extensible sections and never
/// drops a default key: every key of the result is a default key or lies
/// in the `arcella.custom.` or `arcella.modules.` namespace, and
/// every default key is in the result.
pub proof fn law_merge_keys(
    defaults: Entries,
    layers: Seq<Entries>,
    files: Seq<Seq<char>>,
    main_idx: usize,
    default_idx: usize,
)
    requires
        layers.len() <= usize::MAX,
    ensures
        forall|k: Seq<char>|
            #[trigger] crate::assoc::key_set(
                spec_merge(defaults, layers, files, main_idx, default_idx).0,
            ).contains(k) ==> crate::assoc::key_set(defaults).contains(k) || is_newable(k),
        crate::assoc::key_set(defaults).subset_of(
            crate::assoc::key_set(spec_merge(defaults, layers, files, main_idx, default_idx).0),
        ),
{
    lemma_merge_ok(defaults, layers, files, main_idx, default_idx);
}

/// A default value is replaced only by a value of the main file, or by a
/// value of another file when the main file marked the key with `#redef`.
pub proof fn law_merge_redef(
    defaults: Entries,
    layers: Seq<Entries>,
    files: Seq<Seq<char>>,
    main_idx: usize,
    default_idx: usize,
    key: Seq<char>,
)
    requires
        layers.len() <= usize::MAX,
        crate::assoc::key_set(defaults).contains(key),
    ensures
        lookup(spec_merge(defaults, layers, files, main_idx, default_idx).0, key) matches Some(
            v,
        ) && (v.1 == default_idx || v.1 == main_idx || marks_redef(layers, key, main_idx)),
{
    lemma_merge_ok(defaults, layers, files, main_idx, default_idx);
    let f = spec_merge(defaults, layers, files, main_idx, default_idx).0;
    crate::assoc::lemma_find_key(f, key);
}

/// An entry of another key leaves the resolved value of `k` alone.
proof fn lemma_resolve_entry_frame(
    st: Stage1,
    ci: usize,
    key: Seq<char>,
    value: ConfigValue,
    file_idx: usize,
    files: Seq<Seq<char>>,
    k: Seq<char>,
)
    requires
        strip_redef(key).0 != k,
    ensures
        lookup(resolve_entry(st, ci, key, value, file_idx, files).0, k) == lookup(st.0, k),
        crate::assoc::distinct_keys(st.0) ==> crate::assoc::distinct_keys(
            resolve_entry(st, ci, key, value, file_idx, files).0,
        ),
{
    lemma_resolve_entry_distinct(st, ci, key, value, file_idx, files);
    let actual = strip_redef(key).0;
    match lookup(st.0, actual) {
        Some(e) => {
            crate::assoc::lemma_insert_keys(
                st.0,
                actual,
                ResolvedValue {
                    value,
                    source_config_idx: ci,
                    source_file_idx: file_idx,
                    redef_allowed_by: e.redef_allowed_by,
                },
            );
            crate::assoc::lemma_insert_keys(
                st.0,
                actual,
                ResolvedValue { redef_allowed_by: Some(file_idx), ..e },
            );
        },
        None => {
            crate::assoc::lemma_insert_keys(
                st.0,
                actual,
                ResolvedValue {
                    value,
                    source_config_idx: ci,
                    source_file_idx: file_idx,
                    redef_allowed_by: None,
                },
            );
        },
    }
}

/// Resolving an entry keeps the resolved keys distinct.
proof fn lemma_resolve_entry_distinct(
    st: Stage1,
    ci: usize,
    key: Seq<char>,
    value: ConfigValue,
    file_idx: usize,
    files: Seq<Seq<char>>,
)
    ensures
        crate::assoc::distinct_keys(st.0) ==> crate::assoc::distinct_keys(
            resolve_entry(st, ci, key, value, file_idx, files).0,
        ),
{
    if crate::assoc::distinct_keys(st.0) {
        let actual = strip_redef(key).0;
        match lookup(st.0, actual) {
            Some(e) => {
                crate::assoc::lemma_insert_distinct(
                    st.0,
                    actual,
                    ResolvedValue {
                        value,
                        source_config_idx: ci,
                        source_file_idx: file_idx,
                        redef_allowed_by: e.redef_allowed_by,
                    },
                );
                crate::assoc::lemma_insert_distinct(
                    st.0,
                    actual,
                    ResolvedValue { redef_allowed_by: Some(file_idx), ..e },
                );
            },
            None => {
                crate::assoc::lemma_insert_distinct(
                    st.0,
                    actual,
                    ResolvedValue {
                        value,
                        source_config_idx: ci,
                        source_file_idx: file_idx,
                        redef_allowed_by: None,
                    },
                );
            },
        }
    }
}

/// A layer without entries for `k` leaves its resolved value alone, and
/// resolving keeps the keys distinct.
proof fn lemma_resolve_layer_frame(
    st: Stage1,
    ci: usize,
    entries: Entries,
    files: Seq<Seq<char>>,
    k: Seq<char>,
)
    requires
        forall|j: int| 0 <= j < entries.len() ==> strip_redef(#[trigger] entries[j].0).0 != k,
    ensures
        lookup(resolve_layer(st, ci, entries, files).0, k) == lookup(st.0, k),
    decreases entries.len(),
{
    if entries.len() > 0 {
        let prev = entries.drop_last();
        assert forall|j: int| 0 <= j < prev.len() implies strip_redef(#[trigger] prev[j].0).0 != k by {
            assert(prev[j] == entries[j]);
        }
        lemma_resolve_layer_frame(st, ci, prev, files, k);
        assert(entries.last() == entries[entries.len() - 1]);
        lemma_resolve_entry_frame(
            resolve_layer(st, ci, prev, files),
            ci,
            entries.last().0,
            entries.last().1.0,
            entries.last().1.1,
            files,
            k,
        );
    }
}

/// Resolving a layer keeps the resolved keys distinct.
proof fn lemma_resolve_layer_distinct(st: Stage1, ci: usize, entries: Entries, files: Seq<Seq<char>>)
    requires
        crate::assoc::distinct_keys(st.0),
    ensures
        crate::assoc::distinct_keys(resolve_layer(st, ci, entries, files).0),
    decreases entries.len(),
{
    if entries.len() > 0 {
        lemma_resolve_layer_distinct(st, ci, entries.drop_last(), files);
        lemma_resolve_entry_distinct(
            resolve_layer(st, ci, entries.drop_last(), files),
            ci,
            entries.last().0,
            entries.last().1.0,
            entries.last().1.1,
            files,
        );
    }
}

/// The one entry of a layer that sets `k` (as `k` or `k#redef`), where no
/// value of `k` was resolved before, resolves `k` to its own value.
proof fn lemma_resolve_layer_single(
    st: Stage1,
    ci: usize,
    entries: Entries,
    files: Seq<Seq<char>>,
    k: Seq<char>,
    j: int,
)
    requires
        lookup(st.0, k) is None,
        0 <= j < entries.len(),
        strip_redef(entries[j].0).0 == k,
        forall|j2: int|
            0 <= j2 < entries.len() && j2 != j ==> strip_redef(#[trigger] entries[j2].0).0 != k,
    ensures
        lookup(resolve_layer(st, ci, entries, files).0, k) == Some(
            ResolvedValue {
                value: entries[j].1.0,
                source_config_idx: ci,
                source_file_idx: entries[j].1.1,
                redef_allowed_by: None,
            },
        ),
    decreases entries.len(),
{
    let prev = entries.drop_last();
    let n = entries.len() - 1;
    assert(entries.last() == entries[n]);
    let mid = resolve_layer(st, ci, prev, files);
    if j == n {
        assert forall|j2: int| 0 <= j2 < prev.len() implies strip_redef(#[trigger] prev[j2].0).0 != k by {
            assert(prev[j2] == entries[j2]);
        }
        lemma_resolve_layer_frame(st, ci, prev, files, k);
        crate::assoc::lemma_insert_keys(
            mid.0,
            k,
            ResolvedValue {
                value: entries[j].1.0,
                source_config_idx: ci,
                source_file_idx: entries[j].1.1,
                redef_allowed_by: None,
            },
        );
    } else {
        assert(prev[j] == entries[j]);
        assert forall|j2: int| 0 <= j2 < prev.len() && j2 != j implies strip_redef(
            #[trigger] prev[j2].0,
        ).0 != k by {
            assert(prev[j2] == entries[j2]);
        }
        lemma_resolve_layer_single(st, ci, prev, files, k, j);
        lemma_resolve_entry_frame(mid, ci, entries[n].0, entries[n].1.0, entries[n].1.1, files, k);
    }
}

/// No layer from `m` on sets `k`: nothing is resolved for `k`.
proof fn lemma_resolve_layers_none(layers: Seq<Entries>, m: int, files: Seq<Seq<char>>, k: Seq<char>)
    requires
        forall|m2: int, j2: int|
            m <= m2 < layers.len() && 0 <= j2 < layers[m2].len() ==> strip_redef(
                #[trigger] layers[m2][j2].0,
            ).0 != k,
    ensures
        lookup(resolve_layers(layers, m, files).0, k) is None,
    decreases layers.len() - m,
{
    if m < 0 || m >= layers.len() {
        crate::assoc::lemma_find_key(Seq::<(Seq<char>, ResolvedValue)>::empty(), k);
    } else {
        lemma_resolve_layers_none(layers, m + 1, files, k);
        assert forall|j2: int| 0 <= j2 < layers[m].len() implies strip_redef(
            #[trigger] layers[m][j2].0,
        ).0 != k by {}
        lemma_resolve_layer_frame(resolve_layers(layers, m + 1, files), m as usize, layers[m], files, k);
    }
}

/// Resolving the layers yields distinct keys.
proof fn lemma_resolve_layers_distinct(layers: Seq<Entries>, m: int, files: Seq<Seq<char>>)
    ensures
        crate::assoc::distinct_keys(resolve_layers(layers, m, files).0),
    decreases layers.len() - m,
{
    if 0 <= m < layers.len() {
        lemma_resolve_layers_distinct(layers, m + 1, files);
        lemma_resolve_layer_distinct(resolve_layers(layers, m + 1, files), m as usize, layers[m], files);
    }
}

/// The one entry that sets `k`, in layer `m`, gives the value resolved for
/// `k` from every layer at or above `m`.
proof fn lemma_resolve_layers_single(
    layers: Seq<Entries>,
    m0: int,
    files: Seq<Seq<char>>,
    k: Seq<char>,
    m: int,
    j: int,
)
    requires
        layers.len() <= usize::MAX,
        0 <= m0 <= m < layers.len(),
        0 <= j < layers[m].len(),
        strip_redef(layers[m][j].0).0 == k,
        forall|m2: int, j2: int|
            0 <= m2 < layers.len() && 0 <= j2 < layers[m2].len() && (m2 != m || j2 != j)
                ==> strip_redef(#[trigger] layers[m2][j2].0).0 != k,
    ensures
        lookup(resolve_layers(layers, m0, files).0, k) == Some(
            ResolvedValue {
                value: layers[m][j].1.0,
                source_config_idx: m as usize,
                source_file_idx: layers[m][j].1.1,
                redef_allowed_by: None,
            },
        ),
    decreases m - m0,
{
    if m0 == m {
        lemma_resolve_layers_none(layers, m + 1, files, k);
        assert forall|j2: int| 0 <= j2 < layers[m].len() && j2 != j implies strip_redef(
            #[trigger] layers[m][j2].0,
        ).0 != k by {}
        lemma_resolve_layer_single(resolve_layers(layers, m + 1, files), m as usize, layers[m], files, k, j);
    } else {
        lemma_resolve_layers_single(layers, m0 + 1, files, k, m, j);
        assert forall|j2: int| 0 <= j2 < layers[m0].len() implies strip_redef(
            #[trigger] layers[m0][j2].0,
        ).0 != k by {}
        lemma_resolve_layer_frame(resolve_layers(layers, m0 + 1, files), m0 as usize, layers[m0], files, k);
    }
}

/// Merging resolved values of other keys leaves the value of `k` alone.
proof fn lemma_apply_all_frame(
    st: Stage2,
    resolved: Seq<(Seq<char>, ResolvedValue)>,
    main_idx: usize,
    files: Seq<Seq<char>>,
    k: Seq<char>,
)
    requires
        forall|j: int| 0 <= j < resolved.len() ==> (#[trigger] resolved[j]).0 != k,
    ensures
        lookup(apply_all_resolved(st, resolved, main_idx, files).0, k) == lookup(st.0, k),
    decreases resolved.len(),
{
    if resolved.len() > 0 {
        let prev = resolved.drop_last();
        assert forall|j: int| 0 <= j < prev.len() implies (#[trigger] prev[j]).0 != k by {
            assert(prev[j] == resolved[j]);
        }
        lemma_apply_all_frame(st, prev, main_idx, files, k);
        assert(resolved.last() == resolved[resolved.len() - 1]);
        let mid = apply_all_resolved(st, prev, main_idx, files);
        let pv = resolved.last().1;
        crate::assoc::lemma_insert_keys(mid.0, resolved.last().0, (pv.value, pv.source_file_idx));
    }
}

/// The resolved value of `k` (its one entry) replaces or adds the value of
/// `k` when the rules let it.
proof fn lemma_apply_all_key(
    st: Stage2,
    resolved: Seq<(Seq<char>, ResolvedValue)>,
    main_idx: usize,
    files: Seq<Seq<char>>,
    k: Seq<char>,
    i: int,
)
    requires
        0 <= i < resolved.len(),
        resolved[i].0 == k,
        forall|j: int| 0 <= j < resolved.len() && j != i ==> (#[trigger] resolved[j]).0 != k,
        (lookup(st.0, k) is Some && (resolved[i].1.source_file_idx == main_idx
            || resolved[i].1.redef_allowed_by == Some(main_idx))) || (lookup(st.0, k) is None
            && is_newable(k)),
    ensures
        lookup(apply_all_resolved(st, resolved, main_idx, files).0, k) == Some(
            (resolved[i].1.value, resolved[i].1.source_file_idx),
        ),
    decreases resolved.len(),
{
    let prev = resolved.drop_last();
    let n = resolved.len() - 1;
    assert(resolved.last() == resolved[n]);
    let mid = apply_all_resolved(st, prev, main_idx, files);
    let pv = resolved[n].1;
    crate::assoc::lemma_insert_keys(mid.0, resolved[n].0, (pv.value, pv.source_file_idx));
    if i == n {
        assert forall|j: int| 0 <= j < prev.len() implies (#[trigger] prev[j]).0 != k by {
            assert(prev[j] == resolved[j]);
        }
        lemma_apply_all_frame(st, prev, main_idx, files, k);
    } else {
        assert(prev[i] == resolved[i]);
        assert forall|j: int| 0 <= j < prev.len() && j != i implies (#[trigger] prev[j]).0 != k by {
            assert(prev[j] == resolved[j]);
        }
        lemma_apply_all_key(st, prev, main_idx, files, k, i);
    }
}

/// A key that exactly one layer entry sets, as `key` or as `key#redef`,
/// ends with that entry's value and file: a default key set only by the
/// main file, and a new key of the extensible namespaces, take the value
/// that was written (a `#redef` mark does not discard it).
pub proof fn law_merge_single_setter(
    defaults: Entries,
    layers: Seq<Entries>,
    files: Seq<Seq<char>>,
    main_idx: usize,
    default_idx: usize,
    key: Seq<char>,
    m: int,
    j: int,
)
    requires
        layers.len() <= usize::MAX,
        0 <= m < layers.len(),
        0 <= j < layers[m].len(),
        strip_redef(layers[m][j].0).0 == key,
        forall|m2: int, j2: int|
            0 <= m2 < layers.len() && 0 <= j2 < layers[m2].len() && (m2 != m || j2 != j)
                ==> strip_redef(#[trigger] layers[m2][j2].0).0 != key,
        (crate::assoc::key_set(defaults).contains(key) && layers[m][j].1.1 == main_idx) || (
        !crate::assoc::key_set(defaults).contains(key) && is_newable(key)),
    ensures
        lookup(spec_merge(defaults, layers, files, main_idx, default_idx).0, key) == Some(
            (layers[m][j].1.0, layers[m][j].1.1),
        ),
{
    let st1 = resolve_layers(layers, 0, files);
    lemma_resolve_layers_single(layers, 0, files, key, m, j);
    lemma_resolve_layers_distinct(layers, 0, files);
    crate::assoc::lemma_find_key(st1.0, key);
    let i = find_key(st1.0, key)->0;
    assert forall|j2: int| 0 <= j2 < st1.0.len() && j2 != i implies (#[trigger] st1.0[j2]).0 != key by {
        if j2 < i {
        } else {
            assert(st1.0[i].0 != st1.0[j2].0);
        }
    }
    lemma_default_values(defaults, default_idx);
    let d = default_values(defaults, default_idx);
    crate::assoc::lemma_find_key(d, key);
    crate::assoc::lemma_find_key(defaults, key);
    lemma_apply_all_key((d, st1.1), st1.0, main_idx, files, key, i);
}

proof fn lemma_merge_ok(
    defaults: Entries,
    layers: Seq<Entries>,
    files: Seq<Seq<char>>,
    main_idx: usize,
    default_idx: usize,
)
    requires
        layers.len() <= usize::MAX,
    ensures
        stage2_ok(
            spec_merge(defaults, layers, files, main_idx, default_idx).0,
            defaults,
            layers,
            main_idx,
            default_idx,
        ),
{
    let st1 = resolve_layers(layers, 0, files);
    lemma_resolve_layers_sound(layers, 0, files);
    lemma_default_values(defaults, default_idx);
    let d = default_values(defaults, default_idx);
    assert(stage2_ok(d, defaults, layers, main_idx, default_idx));
    lemma_apply_all_ok((d, st1.1), st1.0, defaults, layers, main_idx, default_idx, files);
}

// ---------------------------------------------------------------------------
// Executable merge
// ---------------------------------------------------------------------------

/// Splits the `#redef` marker off a key.
fn strip_redef_key(key: &String) -> (r: (String, bool))
    ensures
        r.0@ == strip_redef(key@).0,
        r.1 == strip_redef(key@).1,
{
    let chars = chars_of(key.as_str());
    let suffix = chars_of(REDEF_SUFFIX);
    if ends_with_chars(&chars, &suffix) {
        (substring(key.as_str(), 0, chars.len() - suffix.len()), true)
    } else {
        (key.clone(), false)
    }
}

/// Whether new keys may be added at `key`.
fn key_is_newable(key: &String) -> (r: bool)
    ensures
        r == is_newable(key@),
{
    let chars = chars_of(key.as_str());
    let mut custom = chars_of(CUSTOM_PREFIX_FULL);
    custom.push('.');
    let mut modules = chars_of(MODULES_PREFIX_FULL);
    modules.push('.');
    proof {
        reveal_strlit(".");
        assert(custom@ =~= CUSTOM_PREFIX_FULL@ + "."@);
        assert(modules@ =~= MODULES_PREFIX_FULL@ + "."@);
    }
    starts_with_chars(&chars, &custom) || starts_with_chars(&chars, &modules)
}

/// Finds the first position of a path in `files` that names the same path
/// as `p`.
fn find_path(files: &Vec<String>, p: &str) -> (r: Option<usize>)
    ensures
        r matches Some(i) ==> path_index(path_views(files@), p@) == Some(i as int),
        r is None ==> path_index(path_views(files@), p@) is None,
{
    let ghost fv = path_views(files@);
    let mut i: usize = 0;
    while i < files.len()
        invariant
            i <= files@.len(),
            fv == path_views(files@),
            forall|j: int| 0 <= j < i ==> !spec_path_eq(#[trigger] fv[j], p@),
        decreases files@.len() - i,
    {
        if path_eq(files[i].as_str(), p) {
            proof {
                assert(spec_path_eq(fv[i as int], p@));
                let c = choose|c: int|
                    0 <= c < fv.len() && spec_path_eq(fv[c], p@) && forall|j: int|
                        0 <= j < c ==> !spec_path_eq(fv[j], p@);
                if c < i {
                    assert(!spec_path_eq(fv[c], p@));
                }
                if c > i {
                    assert(!spec_path_eq(fv[i as int], p@));
                }
            }
            return Some(i);
        }
        i = i + 1;
    }
    None
}

/// Records that a value of file `source_file_idx` was ignored because layer
/// `config_idx` did not mark `key` with `#redef`.
fn add_no_redef_warning(
    key: String,
    config_idx: usize,
    config_files: &Vec<String>,
    source_file_idx: usize,
    warnings: &mut Vec<ConfigLoadWarning>,
)
    ensures
        warnings_view(final(warnings)@) == warnings_view(old(warnings)@).push(
            no_redef_warning(key@, config_idx as nat, path_views(config_files@), source_file_idx as int),
        ),
{
    let path = if source_file_idx < config_files.len() {
        config_files[source_file_idx].clone()
    } else {
        String::from_str("unknown")
    };
    let mut error = String::from_str("Value from file ");
    let quoted = path_debug_text(path.as_str());
    error.append(quoted.as_str());
    error.append(" ignored due to no #redef flag in layer ");
    let layer = decimal_string(config_idx);
    error.append(layer.as_str());
    let ghost before = warnings@;
    warnings.push(ConfigLoadWarning::ValueError { key, error, file: path });
    proof {
        assert(warnings_view(warnings@) =~= warnings_view(before).push(
            no_redef_warning(key@, config_idx as nat, path_views(config_files@), source_file_idx as int),
        ));
    }
}

/// Records that a new key of layer `layer` was ignored because it lies
/// outside the extensible sections.
fn add_missing_warning(key: String, layer: usize, warnings: &mut Vec<ConfigLoadWarning>)
    ensures
        warnings_view(final(warnings)@) == warnings_view(old(warnings)@).push(
            missing_in_default_warning(key@, layer as nat),
        ),
{
    let idx = decimal_string(layer);
    let mut error = String::from_str("Value from layer ");
    error.append(idx.as_str());
    error.append(" ignored due to missing in default config");
    let mut file = String::from_str("layer_");
    file.append(idx.as_str());
    file.append(".toml");
    let ghost before = warnings@;
    warnings.push(ConfigLoadWarning::ValueError { key, error, file });
    proof {
        assert(warnings_view(warnings@) =~= warnings_view(before).push(
            missing_in_default_warning(key@, layer as nat),
        ));
    }
}

/// Folds one layer entry into the resolved values.
fn resolve_one_entry(
    prelim: &mut ResolvedValues,
    ci: usize,
    key: String,
    value: ConfigValue,
    file_idx: usize,
    config_files: &Vec<String>,
    warnings: &mut Vec<ConfigLoadWarning>,
)
    ensures
        ({
            let st = resolve_entry(
                (resolved_entries(*old(prelim)), warnings_view(old(warnings)@)),
                ci,
                key@,
                value,
                file_idx,
                path_views(config_files@),
            );
            resolved_entries(*final(prelim)) == st.0 && warnings_view(final(warnings)@) == st.1
        }),
{
    let (actual, is_redef) = strip_redef_key(&key);
    match resolved_get(prelim, actual.as_str()) {
        Some(e) => {
            if !is_redef {
                add_no_redef_warning(actual.clone(), ci, config_files, e.source_file_idx, warnings);
                resolved_insert(
                    prelim,
                    actual,
                    ResolvedValue {
                        value,
                        source_config_idx: ci,
                        source_file_idx: file_idx,
                        redef_allowed_by: e.redef_allowed_by,
                    },
                );
            } else {
                resolved_insert(
                    prelim,
                    actual,
                    ResolvedValue {
                        value: e.value,
                        source_config_idx: e.source_config_idx,
                        source_file_idx: e.source_file_idx,
                        redef_allowed_by: Some(file_idx),
                    },
                );
            }
        },
        None => {
            resolved_insert(
                prelim,
                actual,
                ResolvedValue {
                    value,
                    source_config_idx: ci,
                    source_file_idx: file_idx,
                    redef_allowed_by: None,
                },
            );
        },
    }
}

/// Folds all entries of one layer into the resolved values.
fn resolve_one_layer(
    prelim: &mut ResolvedValues,
    ci: usize,
    layer: &TomlFileData,
    config_files: &Vec<String>,
    warnings: &mut Vec<ConfigLoadWarning>,
)
    ensures
        ({
            let st = resolve_layer(
                (resolved_entries(*old(prelim)), warnings_view(old(warnings)@)),
                ci,
                config_entries(layer.values),
                path_views(config_files@),
            );
            resolved_entries(*final(prelim)) == st.0 && warnings_view(final(warnings)@) == st.1
        }),
{
    let ghost base = (resolved_entries(*prelim), warnings_view(warnings@));
    let ghost files = path_views(config_files@);
    let ghost entries = config_entries(layer.values);
    let n = config_values_len(&layer.values);
    let mut j: usize = 0;
    while j < n
        invariant
            j <= n,
            n == entries.len(),
            files == path_views(config_files@),
            entries == config_entries(layer.values),
            resolved_entries(*prelim) == resolve_layer(base, ci, entries.take(j as int), files).0,
            warnings_view(warnings@) == resolve_layer(base, ci, entries.take(j as int), files).1,
        decreases n - j,
    {
        let (key, (value, file_idx)) = config_values_get_index(&layer.values, j);
        proof {
            assert(entries.take(j + 1).drop_last() =~= entries.take(j as int));
            assert(entries.take(j + 1).last() == entries[j as int]);
        }
        resolve_one_entry(prelim, ci, key, value, file_idx, config_files, warnings);
        j = j + 1;
    }
    proof {
        assert(entries.take(n as int) =~= entries);
    }
}

/// Stage 1 of merging: resolves all layers from lowest to highest priority.
fn resolve_all_layers(
    configs: &Vec<TomlFileData>,
    config_files: &Vec<String>,
    warnings: &mut Vec<ConfigLoadWarning>,
) -> (r: ResolvedValues)
    ensures
        ({
            let st = resolve_layers(layer_entries(configs@), 0, path_views(config_files@));
            resolved_entries(r) == st.0 && warnings_view(final(warnings)@) == warnings_view(
                old(warnings)@,
            ) + st.1
        }),
{
    let ghost files = path_views(config_files@);
    let ghost layers = layer_entries(configs@);
    let ghost w0 = warnings_view(warnings@);
    let mut prelim = resolved_new();
    let mut ci = configs.len();
    proof {
        assert(w0 + Seq::<WarningView>::empty() =~= w0);
    }
    while ci > 0
        invariant
            ci <= configs@.len(),
            files == path_views(config_files@),
            layers == layer_entries(configs@),
            resolved_entries(prelim) == resolve_layers(layers, ci as int, files).0,
            warnings_view(warnings@) == w0 + resolve_layers(layers, ci as int, files).1,
        decreases ci,
    {
        ci = ci - 1;
        let ghost base = resolve_layers(layers, ci + 1, files);
        let ghost before = warnings_view(warnings@);
        resolve_one_layer(&mut prelim, ci, &configs[ci], config_files, warnings);
        proof {
            assert(layers[ci as int] == config_entries(configs@[ci as int].values));
            lemma_resolve_layer_prefix(base, w0, ci, layers[ci as int], files);
        }
    }
    prelim
}

/// Stage 2a: the default values, attributed to the default file.
fn start_from_defaults(default_config: &TomlFileData, default_idx: usize) -> (r: ConfigValues)
    ensures
        config_entries(r) == default_values(config_entries(default_config.values), default_idx),
{
    let ghost defaults = config_entries(default_config.values);
    let mut final_values = config_values_new();
    let dn = config_values_len(&default_config.values);
    let mut j: usize = 0;
    while j < dn
        invariant
            j <= dn,
            dn == defaults.len(),
            defaults == config_entries(default_config.values),
            config_entries(final_values) == default_values(defaults.take(j as int), default_idx),
        decreases dn - j,
    {
        let (key, (value, _file_idx)) = config_values_get_index(&default_config.values, j);
        proof {
            assert(defaults.take(j + 1).drop_last() =~= defaults.take(j as int));
        }
        config_values_insert(&mut final_values, key, (value, default_idx));
        j = j + 1;
    }
    proof {
        assert(defaults.take(dn as int) =~= defaults);
    }
    final_values
}

/// Stage 2b: merges one resolved value over the current values.
fn apply_one_resolved(
    final_values: &mut ConfigValues,
    key: String,
    pv: ResolvedValue,
    main_idx: usize,
    config_files: &Vec<String>,
    warnings: &mut Vec<ConfigLoadWarning>,
)
    ensures
        ({
            let st = apply_resolved(
                (config_entries(*old(final_values)), warnings_view(old(warnings)@)),
                key@,
                pv,
                main_idx,
                path_views(config_files@),
            );
            config_entries(*final(final_values)) == st.0 && warnings_view(final(warnings)@) == st.1
        }),
{
    let newable = key_is_newable(&key);
    match config_values_get(final_values, key.as_str()) {
        Some(_) => {
            if pv.source_file_idx == main_idx || pv.redef_allowed_by == Some(main_idx) {
                config_values_insert(final_values, key, (pv.value, pv.source_file_idx));
            } else {
                add_no_redef_warning(key, 0, config_files, pv.source_file_idx, warnings);
            }
        },
        None => {
            if newable {
                config_values_insert(final_values, key, (pv.value, pv.source_file_idx));
            } else {
                add_missing_warning(key, pv.source_config_idx, warnings);
            }
        },
    }
}

/// Stage 2b: merges all resolved values, in order.
fn apply_all(
    final_values: &mut ConfigValues,
    prelim: &ResolvedValues,
    main_idx: usize,
    config_files: &Vec<String>,
    warnings: &mut Vec<ConfigLoadWarning>,
)
    ensures
        ({
            let st = apply_all_resolved(
                (config_entries(*old(final_values)), warnings_view(old(warnings)@)),
                resolved_entries(*prelim),
                main_idx,
                path_views(config_files@),
            );
            config_entries(*final(final_values)) == st.0 && warnings_view(final(warnings)@) == st.1
        }),
{
    let ghost start: Stage2 = (config_entries(*final_values), warnings_view(warnings@));
    let ghost files = path_views(config_files@);
    let ghost entries = resolved_entries(*prelim);
    let pn = resolved_len(prelim);
    let mut k: usize = 0;
    while k < pn
        invariant
            k <= pn,
            pn == entries.len(),
            entries == resolved_entries(*prelim),
            files == path_views(config_files@),
            config_entries(*final_values) == apply_all_resolved(
                start,
                entries.take(k as int),
                main_idx,
                files,
            ).0,
            warnings_view(warnings@) == apply_all_resolved(
                start,
                entries.take(k as int),
                main_idx,
                files,
            ).1,
        decreases pn - k,
    {
        let (key, pv) = resolved_get_index(prelim, k);
        proof {
            assert(entries.take(k + 1).drop_last() =~= entries.take(k as int));
        }
        apply_one_resolved(final_values, key, pv, main_idx, config_files, warnings);
        k = k + 1;
    }
    proof {
        assert(entries.take(pn as int) =~= entries);
    }
}

/// Merges configuration layers according to Arcella's override and
/// extension rules.
///
/// `configs[0]` is the main configuration (highest priority), followed by
/// the included files; `config_files` lists every loaded file path, in load
/// order, and the main configuration is `arcella.toml` under `config_dir`.
///
/// 1. Layers are resolved from lowest to highest priority: a key seen again
///    without `#redef` takes the higher layer's value (with a warning that
///    the lower value was ignored); a key seen again with `#redef` records
///    that its file allows redefinition.
/// 2. The result starts from the default values. A resolved value replaces a
///    default only if it comes from the main file or the main file marked the
///    key with `#redef`; otherwise a warning is recorded. A key absent from
///    the defaults is added only under the extensible prefixes; otherwise a
///    warning is recorded.
pub fn merge_config(
    default_config: &TomlFileData,
    configs: &Vec<TomlFileData>,
    config_files: &Vec<String>,
    config_dir: &str,
    warnings: &mut Vec<ConfigLoadWarning>,
) -> (r: Result<ConfigValues, ArcellaError>)
    requires
        path_index(path_views(config_files@), main_config_path(config_dir@)) is Some,
        path_index(path_views(config_files@), DEFAULT_CONFIG_FILENAME@) is Some,
    ensures
        r is Ok,
        r matches Ok(values) ==> {
            let m = spec_merge(
                config_entries(default_config.values),
                layer_entries(configs@),
                path_views(config_files@),
                path_index(path_views(config_files@), main_config_path(config_dir@))->0 as usize,
                path_index(path_views(config_files@), DEFAULT_CONFIG_FILENAME@)->0 as usize,
            );
            &&& config_entries(values) == m.0
            &&& warnings_view(final(warnings)@) == warnings_view(old(warnings)@) + m.1
        },
{
    let ghost w0 = warnings_view(warnings@);
    let prelim = resolve_all_layers(configs, config_files, warnings);
    let ghost w1 = warnings_view(warnings@);
    let default_idx = match find_path(config_files, DEFAULT_CONFIG_FILENAME) {
        Some(i) => i,
        None => 0,
    };
    let main_path = path_join(config_dir, MAIN_CONFIG_FILENAME);
    let main_idx = match find_path(config_files, main_path.as_str()) {
        Some(i) => i,
        None => 0,
    };
    let mut final_values = start_from_defaults(default_config, default_idx);
    apply_all(&mut final_values, &prelim, main_idx, config_files, warnings);
    proof {
        let st1 = resolve_layers(layer_entries(configs@), 0, path_views(config_files@));
        lemma_apply_all_prefix(
            (default_values(config_entries(default_config.values), default_idx), st1.1),
            w0,
            st1.0,
            main_idx,
            path_views(config_files@),
        );
    }
    Ok(final_values)
}

/// The values of a loaded configuration: the layers merged as by
/// [`merge_config`], then ordered by key for a deterministic result.
/// `None` when `config_files` lacks the main configuration or the built-in
/// defaults, which merging needs.
pub fn finalize_config(
    default_config: &TomlFileData,
    configs: &Vec<TomlFileData>,
    config_files: &Vec<String>,
    config_dir: &str,
    warnings: &mut Vec<ConfigLoadWarning>,
) -> (r: Option<ConfigValues>)
    ensures
        r is Some <==> (path_index(path_views(config_files@), main_config_path(config_dir@)) is Some
            && path_index(path_views(config_files@), DEFAULT_CONFIG_FILENAME@) is Some),
        r is None ==> final(warnings)@ == old(warnings)@,
        r matches Some(values) ==> {
            let m = spec_merge(
                config_entries(default_config.values),
                layer_entries(configs@),
                path_views(config_files@),
                path_index(path_views(config_files@), main_config_path(config_dir@))->0 as usize,
                path_index(path_views(config_files@), DEFAULT_CONFIG_FILENAME@)->0 as usize,
            );
            &&& config_entries(values).to_multiset() == m.0.to_multiset()
            &&& keys_sorted(config_entries(values))
            &&& warnings_view(final(warnings)@) == warnings_view(old(warnings)@) + m.1
        },
{
    let main_path = path_join(config_dir, MAIN_CONFIG_FILENAME);
    if find_path(config_files, main_path.as_str()).is_none() || find_path(
        config_files,
        DEFAULT_CONFIG_FILENAME,
    ).is_none() {
        return None;
    }
    let merged = merge_config(default_config, configs, config_files, config_dir, warnings);
    match merged {
        Ok(mut values) => {
            config_values_sort_keys(&mut values);
            Some(values)
        },
        Err(_) => None,
    }
}

// ---------------------------------------------------------------------------
// Lookup and integrity
// ---------------------------------------------------------------------------

/// The message of a missing or non-string path setting.
pub open spec fn path_value_error(full_key: Seq<char>) -> Seq<char> {
    full_key + " is not set or not a string"@
}

/// Helper to extract a required string path value from config by suffix:
/// the value of `arcella.<suffix>`, which must be a string.
pub fn extract_path_value(config: &ConfigValues, suffix: &str) -> (r: Result<String, ArcellaError>)
    ensures
        ({
            let full_key = ARCELLA_PREFIX@ + suffix@;
            match lookup(config_entries(*config), full_key) {
                Some((ConfigValue::String(s), _)) => r matches Ok(p) && p@ == s@,
                _ => r matches Err(ArcellaError::Internal(m)) && m@ == path_value_error(full_key),
            }
        }),
{
    let mut full_key = String::from_str(ARCELLA_PREFIX);
    full_key.append(suffix);
    match config_values_get(config, full_key.as_str()) {
        Some((ConfigValue::String(s), _)) => Ok(s),
        _ => {
            full_key.append(" is not set or not a string");
            Err(ArcellaError::Internal(full_key))
        },
    }
}

/// A file modification time, as seconds and nanoseconds on either side of
/// the Unix epoch.
#[derive(Debug, Clone, Copy, PartialEq, Eq, Structural)]
pub struct FileTime {
    /// Whether the time is at or after the Unix epoch.
    pub after_epoch: bool,
    /// Whole seconds from the epoch.
    pub secs: u64,
    /// Sub-second nanoseconds.
    pub nanos: u32,
}

/// The message of a file changed after startup.
pub open spec fn modified_error(path: Seq<char>) -> Seq<char> {
    "Config integrity violation: file "@ + spec_path_debug(path) + " was modified after startup"@
}

/// The message of a file that was not monitored.
pub open spec fn unknown_file_error(path: Seq<char>) -> Seq<char> {
    "Config integrity violation: file "@ + spec_path_debug(path)
        + " not found in initial list"@
}

/// The time recorded in `initial` for the path `p`, as a map keyed by
/// path records it: that of the last entry naming the same path as `p`
/// (paths compared by their components); none if no entry does.
pub open spec fn recorded_time(initial: Seq<(Seq<char>, FileTime)>, p: Seq<char>) -> Option<FileTime>
    decreases initial.len(),
{
    if initial.len() == 0 {
        None
    } else if spec_path_eq(initial.last().0, p) {
        Some(initial.last().1)
    } else {
        recorded_time(initial.drop_last(), p)
    }
}

/// A current entry is consistent with the recorded times.
pub open spec fn mtime_unchanged(initial: Seq<(Seq<char>, FileTime)>, cur: (Seq<char>, FileTime)) -> bool {
    recorded_time(initial, cur.0) == Some(cur.1)
}

/// The error reported for an inconsistent entry.
pub open spec fn mtime_error(initial: Seq<(Seq<char>, FileTime)>, cur: (Seq<char>, FileTime)) -> Seq<char> {
    if recorded_time(initial, cur.0) is Some {
        modified_error(cur.0)
    } else {
        unknown_file_error(cur.0)
    }
}

/// The views of a list of timed paths.
pub open spec fn timed_views(v: Seq<(String, FileTime)>) -> Seq<(Seq<char>, FileTime)> {
    v.map_values(|e: (String, FileTime)| (e.0@, e.1))
}

/// An entry of `initial` whose path no later entry names again is the
/// one recorded for its path.
proof fn lemma_recorded_time(initial: Seq<(Seq<char>, FileTime)>, i: int)
    requires
        0 <= i < initial.len(),
        forall|j: int| i < j < initial.len() ==> !spec_path_eq(#[trigger] initial[j].0, initial[i].0),
    ensures
        recorded_time(initial, initial[i].0) == Some(initial[i].1),
    decreases initial.len(),
{
    if i < initial.len() - 1 {
        assert(!spec_path_eq(initial[initial.len() - 1].0, initial[i].0));
        let rest = initial.drop_last();
        assert forall|j: int| i < j < rest.len() implies !spec_path_eq(#[trigger] rest[j].0, rest[i].0) by {
            assert(rest[j] == initial[j]);
        }
        lemma_recorded_time(rest, i);
    }
}

/// Times recorded once per path pass a check against themselves: a
/// checker that sees the files as they were at startup reports no change.
pub proof fn law_recorded_times_pass(initial: Seq<(Seq<char>, FileTime)>)
    requires
        forall|i: int, j: int|
            0 <= i < j < initial.len() ==> !spec_path_eq(#[trigger] initial[i].0, #[trigger] initial[j].0),
    ensures
        forall|i: int| 0 <= i < initial.len() ==> mtime_unchanged(initial, #[trigger] initial[i]),
{
    assert forall|i: int| 0 <= i < initial.len() implies mtime_unchanged(initial, #[trigger] initial[i]) by {
        assert forall|j: int| i < j < initial.len() implies !spec_path_eq(#[trigger] initial[j].0, initial[i].0) by {
            assert(!spec_path_eq(initial[i].0, initial[j].0));
        }
        lemma_recorded_time(initial, i);
    }
}

/// Compares initial and current file modification times.
///
/// Fails, for the first inconsistent entry of `current`, if the file was
/// modified or was not in the initial list; paths are compared by their
/// components.
pub fn check_mtimes_changed(initial: &Vec<(String, FileTime)>, current: &Vec<(String, FileTime)>) -> (r:
    Result<(), ArcellaError>)
    ensures
        ({
            let ini = timed_views(initial@);
            let cur = timed_views(current@);
            &&& r is Ok <==> forall|i: int| 0 <= i < cur.len() ==> mtime_unchanged(ini, #[trigger] cur[i])
            &&& r is Err ==> exists|i: int|
                0 <= i < cur.len() && !mtime_unchanged(ini, #[trigger] cur[i]) && (forall|j: int|
                    0 <= j < i ==> mtime_unchanged(ini, #[trigger] cur[j])) && (r matches Err(
                    ArcellaError::Internal(m),
                ) && m@ == mtime_error(ini, cur[i]))
        }),
{
    let ghost ini = timed_views(initial@);
    let ghost cur = timed_views(current@);
    let mut i: usize = 0;
    while i < current.len()
        invariant
            i <= current@.len(),
            ini == timed_views(initial@),
            cur == timed_views(current@),
            forall|j: int| 0 <= j < i ==> mtime_unchanged(ini, #[trigger] cur[j]),
        decreases current@.len() - i,
    {
        let path = &current[i].0;
        let mtime = current[i].1;
        let mut found: Option<FileTime> = None;
        let mut k: usize = 0;
        while k < initial.len()
            invariant
                k <= initial@.len(),
                ini == timed_views(initial@),
                found == recorded_time(ini.take(k as int), path@),
            decreases initial@.len() - k,
        {
            proof {
                assert(ini.take(k + 1).drop_last() =~= ini.take(k as int));
                assert(ini.take(k + 1).last() == ini[k as int]);
            }
            if path_eq(initial[k].0.as_str(), path.as_str()) {
                found = Some(initial[k].1);
            }
            k = k + 1;
        }
        proof {
            assert(ini.take(initial@.len() as int) =~= ini);
            assert(cur[i as int] == (path@, mtime));
        }
        match found {
            Some(t) => {
                if t != mtime {
                    let mut m = String::from_str("Config integrity violation: file ");
                    let q = path_debug_text(path.as_str());
                    m.append(q.as_str());
                    m.append(" was modified after startup");
                    return Err(ArcellaError::Internal(m));
                }
            },
            None => {
                let mut m = String::from_str("Config integrity violation: file ");
                let q = path_debug_text(path.as_str());
                m.append(q.as_str());
                m.append(" not found in initial list");
                return Err(ArcellaError::Internal(m));
            },
        }
        i = i + 1;
    }
    Ok(())
}

/// Tracks file modification times to detect changes after startup.
#[derive(Debug, Clone)]
pub struct IntegrityChecker {
    /// Paths to monitor.
    paths: Vec<String>,
    /// Modification times recorded at startup.
    initial_mtimes: Vec<(String, FileTime)>,
}

impl IntegrityChecker {
    /// A checker for `paths` with the times recorded at startup.
    pub fn new(paths: Vec<String>, initial_mtimes: Vec<(String, FileTime)>) -> (r: Self)
        ensures
            r.paths() == paths@,
            r.initial_mtimes() == initial_mtimes@,
    {
        IntegrityChecker { paths, initial_mtimes }
    }

    /// The monitored paths.
    pub closed spec fn paths(&self) -> Seq<String> {
        self.paths@
    }

    /// The times recorded at startup.
    pub closed spec fn initial_mtimes(&self) -> Seq<(String, FileTime)> {
        self.initial_mtimes@
    }

    /// The monitored paths.
    pub fn monitored_paths(&self) -> (r: &Vec<String>)
        ensures
            r@ == self.paths(),
    {
        &self.paths
    }

    /// Checks the current modification times against those recorded at startup.
    pub fn check(&self, current: &Vec<(String, FileTime)>) -> (r: Result<(), ArcellaError>)
        ensures
            ({
                let ini = timed_views(self.initial_mtimes());
                let cur = timed_views(current@);
                &&& r is Ok <==> forall|i: int|
                    0 <= i < cur.len() ==> mtime_unchanged(ini, #[trigger] cur[i])
                &&& r is Err ==> exists|i: int|
                    0 <= i < cur.len() && !mtime_unchanged(ini, #[trigger] cur[i]) && (forall|j: int|
                        0 <= j < i ==> mtime_unchanged(ini, #[trigger] cur[j])) && (r matches Err(
                        ArcellaError::Internal(m),
                    ) && m@ == mtime_error(ini, cur[i]))
            }),
    {
        check_mtimes_changed(&self.initial_mtimes, current)
    }
}

/// Final resolved Arcella configuration after merging all layers.
#[derive(Debug)]
pub struct ArcellaConfig {
    /// Flattened key-value configuration map.
    pub config_values: ConfigValues,
    /// Base directory of the Arcella installation.
    pub base_dir: String,
    /// Directory containing `arcella.toml` and included configs.
    pub config_dir: String,
    /// Integrity checker for critical configuration files.
    pub integrity_checker: IntegrityChecker,
}

impl ArcellaConfig {
    /// The string path stored at `arcella.<suffix>`.
    pub fn extract_path_value(&self, suffix: &str) -> (r: Result<String, ArcellaError>)
        ensures
            ({
                let full_key = ARCELLA_PREFIX@ + suffix@;
                match lookup(config_entries(self.config_values), full_key) {
                    Some((ConfigValue::String(s), _)) => r matches Ok(p) && p@ == s@,
                    _ => r matches Err(ArcellaError::Internal(m)) && m@ == path_value_error(full_key),
                }
            }),
    {
        extract_path_value(&self.config_values, suffix)
    }
}

/// Immutable parameters of configuration loading.
#[derive(Debug, Clone)]
pub struct ConfigLoadParams {
    /// Key prefix of the loaded values.
    pub prefix: Vec<String>,
    /// Directory holding the configuration files.
    pub config_dir: String,
}


/// The mutable state of configuration loading.
#[derive(Debug, Clone)]
pub struct ConfigLoadState {
    /// Every configuration file loaded, in load order, each once.
    pub config_files: Vec<String>,
    /// The files on the current inclusion stack (to detect cycles).
    pub visited_paths: Vec<String>,
    /// Non-fatal warnings collected during loading.
    pub warnings: Vec<ConfigLoadWarning>,
}

impl Default for ConfigLoadState {
    fn default() -> (r: Self)
        ensures
            r.config_files@.len() == 0,
            r.visited_paths@.len() == 0,
            r.warnings@.len() == 0,
    {
        ConfigLoadState { config_files: Vec::new(), visited_paths: Vec::new(), warnings: Vec::new() }
    }
}

impl ConfigLoadState {
    /// Registers a loaded file as an insertion-ordered set does: a path
    /// already known keeps its index, a new one is added last. Returns the
    /// path's index and whether it was new.
    pub fn register_file(&mut self, path: String) -> (r: (usize, bool))
        ensures
            match path_index(path_views(old(self).config_files@), path@) {
                Some(i) => r == (i as usize, false) && final(self).config_files
                    == old(self).config_files,
                None => r == (old(self).config_files@.len() as usize, true)
                    && final(self).config_files@ == old(self).config_files@.push(path),
            },
            final(self).visited_paths == old(self).visited_paths,
            final(self).warnings == old(self).warnings,
    {
        match find_path(&self.config_files, path.as_str()) {
            Some(i) => (i, false),
            None => {
                let n = self.config_files.len();
                self.config_files.push(path);
                (n, true)
            },
        }
    }
}

/// The deepest inclusion level loaded: the main file is at depth 0, so an
/// inclusion chain holds at most `MAX_CONFIG_DEPTH + 1` files.
pub const MAX_CONFIG_DEPTH: usize = 5;

/// What to do with a configuration file reached through `includes`.
#[derive(Debug, Clone, Copy, PartialEq, Eq)]
pub enum IncludeStep {
    /// Load the file and follow its own includes one level deeper.
    Load,
    /// The file is already on the inclusion stack: skip it (a cycle).
    SkipCycle,
    /// The file lies deeper than [`MAX_CONFIG_DEPTH`]: skip it.
    SkipTooDeep,
}

/// The step for a file at `depth`: too deep first, then a cycle through the
/// files on the current inclusion stack, else load it.
pub open spec fn include_step(visited: Seq<Seq<char>>, path: Seq<char>, depth: nat) -> IncludeStep {
    if depth > MAX_CONFIG_DEPTH {
        IncludeStep::SkipTooDeep
    } else if path_index(visited, path) is Some {
        IncludeStep::SkipCycle
    } else {
        IncludeStep::Load
    }
}

impl ConfigLoadState {
    /// Decides whether the file `path`, reached at inclusion depth `depth`,
    /// is loaded or skipped.
    pub fn plan_include(&self, path: &str, depth: usize) -> (r: IncludeStep)
        ensures
            r == include_step(path_views(self.visited_paths@), path@, depth as nat),
    {
        if depth > MAX_CONFIG_DEPTH {
            IncludeStep::SkipTooDeep
        } else if find_path(&self.visited_paths, path).is_some() {
            IncludeStep::SkipCycle
        } else {
            IncludeStep::Load
        }
    }
}

impl ConfigLoadState {
    /// Starts loading `path`: registers it (see [`Self::register_file`]) and
    /// puts it on the inclusion stack. Returns the file's index.
    pub fn enter_file(&mut self, path: String) -> (r: usize)
        ensures
            match path_index(path_views(old(self).config_files@), path@) {
                Some(i) => r == i && final(self).config_files == old(self).config_files,
                None => r == old(self).config_files@.len() && path_views(final(self).config_files@)
                    == path_views(old(self).config_files@).push(path@),
            },
            final(self).visited_paths@ == old(self).visited_paths@.push(path),
            final(self).warnings == old(self).warnings,
    {
        let ghost before = self.config_files@;
        let count = self.config_files.len();
        let copy = path.clone();
        assert(copy@ == path@);
        let (idx, _) = self.register_file(copy);
        proof {
            match path_index(path_views(before), path@) {
                Some(i) => {
                    lemma_path_index(path_views(before), path@);
                    assert(i < count);
                },
                None => {
                    assert(idx == count);
                    assert(path_views(self.config_files@) =~= path_views(before).push(path@));
                },
            }
        }
        self.visited_paths.push(path);
        idx
    }

    /// Ends loading the file on top of the inclusion stack: takes it off.
    pub fn leave_file(&mut self)
        ensures
            final(self).visited_paths@ == (if old(self).visited_paths@.len() > 0 {
                old(self).visited_paths@.drop_last()
            } else {
                old(self).visited_paths@
            }),
            final(self).config_files == old(self).config_files,
            final(self).warnings == old(self).warnings,
    {
        self.visited_paths.pop();
    }
}

/// A file on the inclusion stack is never loaded again from within its own
/// includes: once `path` is entered, reaching it again is skipped (as a
/// cycle, or as too deep).
pub proof fn law_entered_file_not_reloaded(visited: Seq<String>, path: String, depth: nat)
    ensures
        include_step(path_views(visited.push(path)), path@, depth) != IncludeStep::Load,
{
    let vs = path_views(visited.push(path));
    assert(vs[vs.len() - 1] == path@);
    lemma_path_index_found(vs, path@, vs.len() - 1);
}

/// A path some entry of `files` names is found by [`path_index`].
pub proof fn lemma_path_index_found(files: Seq<Seq<char>>, p: Seq<char>, k: int)
    requires
        0 <= k < files.len(),
        spec_path_eq(files[k], p),
    ensures
        path_index(files, p) is Some,
    decreases k,
{
    if exists|j: int| 0 <= j < k && spec_path_eq(#[trigger] files[j], p) {
        let j = choose|j: int| 0 <= j < k && spec_path_eq(#[trigger] files[j], p);
        lemma_path_index_found(files, p, j);
    } else {
        assert(forall|j: int| 0 <= j < k ==> !spec_path_eq(#[trigger] files[j], p));
        assert(0 <= k < files.len() && spec_path_eq(files[k], p) && forall|j: int|
            0 <= j < k ==> !spec_path_eq(files[j], p));
    }
}

} // verus!
