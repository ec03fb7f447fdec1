//! Plugin listing and enablement rules: how a discovered plugin is
//! described, and how the persisted list of enabled plugins changes.

use vstd::prelude::*;

use crate::error::ApplicationError;
use crate::text::{
    lemma_text_less_asymmetric, lemma_text_less_transitive, listed, same_text, text_less, text_lt,
    texts,
};

verus! {

/// Whether `id` is in a list of strings.
pub fn contains_text(list: &Vec<String>, id: &str) -> (r: bool)
    ensures
        r == listed(texts(list@), id@),
{
    let mut i: usize = 0;
    while i < list.len()
        invariant
            i <= list.len(),
            forall|j: int| 0 <= j < i ==> texts(list@)[j] != id@,
        decreases list.len() - i,
    {
        if same_text(list[i].as_str(), id) {
            assert(texts(list@)[i as int] == id@);
            return true;
        }
        i = i + 1;
    }
    false
}

/* ------------------------------------------------------------------------ */
/*  Sorted text lists                                                       */
/* ------------------------------------------------------------------------ */

/// Whether texts are in non-decreasing order.
pub open spec fn sorted_texts(s: Seq<Seq<char>>) -> bool {
    forall|i: int, j: int| 0 <= i < j < s.len() ==> !text_less(#[trigger] s[j], #[trigger] s[i])
}

/// Index of the first text at or after `i` that sorts after `x`.
pub open spec fn first_after(s: Seq<Seq<char>>, x: Seq<char>, i: nat) -> nat
    decreases s.len() - i,
{
    if i >= s.len() {
        s.len()
    } else if text_less(x, s[i as int]) {
        i
    } else {
        first_after(s, x, i + 1)
    }
}

/// `s` with `x` inserted before the first text that sorts after it.
pub open spec fn insert_text(s: Seq<Seq<char>>, x: Seq<char>) -> Seq<Seq<char>> {
    s.insert(first_after(s, x, 0) as int, x)
}

/// The texts of `s` in sorted order.
pub open spec fn sort_texts(s: Seq<Seq<char>>) -> Seq<Seq<char>>
    decreases s.len(),
{
    if s.len() == 0 {
        s
    } else {
        insert_text(sort_texts(s.drop_last()), s.last())
    }
}

proof fn lemma_first_after(s: Seq<Seq<char>>, x: Seq<char>, i: nat)
    requires
        i <= s.len(),
        forall|j: int| 0 <= j < i ==> !text_less(x, #[trigger] s[j]),
    ensures
        first_after(s, x, i) <= s.len(),
        forall|j: int| 0 <= j < first_after(s, x, i) ==> !text_less(x, #[trigger] s[j]),
        first_after(s, x, i) < s.len() ==> text_less(x, s[first_after(s, x, i) as int]),
    decreases s.len() - i,
{
    if i < s.len() && !text_less(x, s[i as int]) {
        lemma_first_after(s, x, i + 1);
    }
}

proof fn lemma_insert_text(s: Seq<Seq<char>>, x: Seq<char>)
    requires
        sorted_texts(s),
    ensures
        sorted_texts(insert_text(s, x)),
        insert_text(s, x).len() == s.len() + 1,
        forall|y: Seq<char>| listed(insert_text(s, x), y) <==> (y == x || listed(s, y)),
{
    lemma_first_after(s, x, 0);
    let p = first_after(s, x, 0) as int;
    let r = insert_text(s, x);
    assert forall|a: int, b: int| 0 <= a < b < r.len() implies !text_less(#[trigger] r[b], #[trigger] r[a]) by {
        if b < p {
        } else if b == p {
        } else if a == p {
            lemma_text_less_asymmetric(x, s[p]);
            if text_less(s[b - 1], x) {
                if b - 1 > p {
                    lemma_text_less_transitive(s[b - 1], x, s[p]);
                } else {
                    lemma_text_less_asymmetric(x, s[p]);
                }
            }
        } else if a < p {
            if text_less(s[b - 1], s[a]) {
            }
        } else {
        }
    }
    assert forall|y: Seq<char>| listed(r, y) <==> (y == x || listed(s, y)) by {
        if listed(r, y) {
            let i = choose|i: int| 0 <= i < r.len() && r[i] == y;
            if i < p {
                assert(s[i] == y);
            } else if i > p {
                assert(s[i - 1] == y);
            }
        }
        if y == x {
            assert(r[p] == x);
        }
        if listed(s, y) {
            let i = choose|i: int| 0 <= i < s.len() && s[i] == y;
            if i < p {
                assert(r[i] == y);
            } else {
                assert(r[i + 1] == y);
            }
        }
    }
}

proof fn lemma_sort_texts(s: Seq<Seq<char>>)
    ensures
        sorted_texts(sort_texts(s)),
        sort_texts(s).len() == s.len(),
        forall|y: Seq<char>| listed(sort_texts(s), y) <==> listed(s, y),
    decreases s.len(),
{
    if s.len() > 0 {
        lemma_sort_texts(s.drop_last());
        lemma_insert_text(sort_texts(s.drop_last()), s.last());
        assert forall|y: Seq<char>| listed(sort_texts(s), y) <==> listed(s, y) by {
            if listed(s.drop_last(), y) {
                let i = choose|i: int| 0 <= i < s.drop_last().len() && s.drop_last()[i] == y;
                assert(s[i] == y);
            }
            if listed(s, y) {
                let i = choose|i: int| 0 <= i < s.len() && s[i] == y;
                if i < s.len() - 1 {
                    assert(s.drop_last()[i] == y);
                }
            }
        }
    }
}

/// The texts of `s` other than `id`, in order.
pub open spec fn without_text(s: Seq<Seq<char>>, id: Seq<char>) -> Seq<Seq<char>>
    decreases s.len(),
{
    if s.len() == 0 {
        s
    } else if s.last() == id {
        without_text(s.drop_last(), id)
    } else {
        without_text(s.drop_last(), id).push(s.last())
    }
}

proof fn lemma_listed_push(s: Seq<Seq<char>>, z: Seq<char>, y: Seq<char>)
    ensures
        listed(s.push(z), y) <==> (listed(s, y) || z == y),
{
    if listed(s.push(z), y) {
        let i = choose|i: int| 0 <= i < s.push(z).len() && s.push(z)[i] == y;
        if i < s.len() {
            assert(s[i] == y);
        }
    }
    if listed(s, y) {
        let i = choose|i: int| 0 <= i < s.len() && s[i] == y;
        assert(s.push(z)[i] == y);
    }
    if z == y {
        assert(s.push(z)[s.len() as int] == y);
    }
}

proof fn lemma_listed_last(s: Seq<Seq<char>>, y: Seq<char>)
    requires
        s.len() > 0,
    ensures
        listed(s, y) <==> (listed(s.drop_last(), y) || s.last() == y),
{
    assert(s.drop_last().push(s.last()) =~= s);
    lemma_listed_push(s.drop_last(), s.last(), y);
}

proof fn lemma_without_text_one(s: Seq<Seq<char>>, id: Seq<char>, y: Seq<char>)
    ensures
        listed(without_text(s, id), y) <==> (y != id && listed(s, y)),
    decreases s.len(),
{
    if s.len() > 0 {
        lemma_without_text_one(s.drop_last(), id, y);
        let w = without_text(s.drop_last(), id);
        lemma_listed_last(s, y);
        if s.last() != id {
            assert(without_text(s, id) == w.push(s.last()));
            lemma_listed_push(w, s.last(), y);
        } else {
            assert(without_text(s, id) == w);
        }
    } else {
        assert(without_text(s, id) == s);
        assert(!listed(s, y));
    }
}

/// The enabled-plugin list after a decision about `id`: every entry for it
/// removed, then, if enabling, the id added, and the list sorted.
pub open spec fn enabled_after(list: Seq<Seq<char>>, id: Seq<char>, enabled: bool) -> Seq<Seq<char>> {
    if enabled {
        sort_texts(without_text(list, id).push(id))
    } else {
        without_text(list, id)
    }
}

/// Applies an enablement decision to the persisted list of enabled plugins.
pub fn update_enabled_plugins(list: &Vec<String>, id: &str, enabled: bool) -> (r: Vec<String>)
    ensures
        texts(r@) == enabled_after(texts(list@), id@, enabled),
{
    let mut kept: Vec<String> = Vec::new();
    let mut i: usize = 0;
    while i < list.len()
        invariant
            i <= list.len(),
            texts(kept@) == without_text(texts(list@).take(i as int), id@),
        decreases list.len() - i,
    {
        assert(texts(list@).take(i as int + 1).drop_last() =~= texts(list@).take(i as int));
        assert(texts(list@).take(i as int + 1).last() == list@[i as int]@);
        if !same_text(list[i].as_str(), id) {
            let ghost before = kept@;
            kept.push(list[i].clone());
            assert(texts(kept@) =~= texts(before).push(list@[i as int]@));
        }
        i = i + 1;
    }
    assert(texts(list@).take(list.len() as int) =~= texts(list@));
    if !enabled {
        return kept;
    }
    kept.push(String::from_str(id));
    let ghost all = texts(kept@);
    assert(all == without_text(texts(list@), id@).push(id@));
    let mut sorted: Vec<String> = Vec::new();
    let mut k: usize = 0;
    while k < kept.len()
        invariant
            all == texts(kept@),
            k <= kept.len(),
            texts(sorted@) == sort_texts(all.take(k as int)),
        decreases kept.len() - k,
    {
        assert(all.take(k as int + 1).drop_last() =~= all.take(k as int));
        assert(all.take(k as int + 1).last() == all[k as int]);
        let x = kept[k].clone();
        let ghost s = texts(sorted@);
        let mut j: usize = 0;
        assert(first_after(s, x@, 0) == first_after(s, x@, j as nat));
        while j < sorted.len() && !text_lt(x.as_str(), sorted[j].as_str())
            invariant
                s == texts(sorted@),
                j <= sorted.len(),
                first_after(s, x@, 0) == first_after(s, x@, j as nat),
            decreases sorted.len() - j,
        {
            j = j + 1;
        }
        let ghost before = sorted@;
        sorted.insert(j, x);
        assert(texts(sorted@) =~= s.insert(j as int, x@));
        k = k + 1;
    }
    assert(all.take(kept.len() as int) =~= all);
    sorted
}

/// Enabling a plugin lists it and disabling it unlists it, while every
/// other plugin stays exactly as listed or unlisted as it was; the list
/// after enabling is sorted.
pub proof fn law_enablement_touches_only_its_plugin(
    list: Seq<Seq<char>>,
    id: Seq<char>,
    enabled: bool,
    other: Seq<char>,
)
    requires
        other != id,
    ensures
        listed(enabled_after(list, id, enabled), id) == enabled,
        listed(enabled_after(list, id, enabled), other) == listed(list, other),
        enabled ==> sorted_texts(enabled_after(list, id, enabled)),
{
    lemma_without_text_one(list, id, id);
    lemma_without_text_one(list, id, other);
    let w = without_text(list, id);
    if enabled {
        lemma_sort_texts(w.push(id));
        lemma_listed_push(w, id, id);
        lemma_listed_push(w, id, other);
    }
}

/* ------------------------------------------------------------------------ */
/*  Plugin descriptions                                                     */
/* ------------------------------------------------------------------------ */

/// Name, version and description a plugin manifest declares.
#[derive(Debug)]
pub struct PluginManifestSummary {
    /// Display name.
    pub name: String,
    /// Version.
    pub version: String,
    /// Description.
    pub description: String,
}

/// A discovered plugin, as listing reads it.
#[derive(Debug)]
pub struct DiscoveredPlugin {
    /// Plugin identifier.
    pub id: String,
    /// What its manifest declares, if the manifest could be read.
    pub manifest: Option<PluginManifestSummary>,
    /// Whether the plugin is valid.
    pub valid: bool,
    /// Discovery diagnostic, if any.
    pub diagnostic: Option<String>,
}

/// How a plugin is listed.
#[derive(Debug, PartialEq, Eq)]
pub struct PluginDescription {
    /// Plugin identifier.
    pub id: String,
    /// Display name; the identifier when the manifest could not be read.
    pub name: String,
    /// Version; empty when the manifest could not be read.
    pub version: String,
    /// Description; empty when the manifest could not be read.
    pub description: String,
    /// Whether the plugin is in effect: valid, enabled and not disabled by the runtime.
    pub enabled: bool,
    /// The discovery diagnostic, or else the runtime's.
    pub diagnostic: Option<String>,
    /// Whether its columns are loaded: only for valid, enabled plugins.
    pub load_columns: bool,
    /// Whether its icon theme is shown: only for valid plugins.
    pub show_icon_theme: bool,
}

/// Whether `d` describes plugin `p` given the enabled list and the runtime's diagnostic.
pub open spec fn describes(
    d: PluginDescription,
    p: DiscoveredPlugin,
    enabled_plugins: Seq<String>,
    runtime_diagnostic: Option<String>,
) -> bool {
    let is_enabled = listed(texts(enabled_plugins), p.id@);
    &&& d.id@ == p.id@
    &&& match p.manifest {
        Some(m) => d.name@ == m.name@ && d.version@ == m.version@ && d.description@
            == m.description@,
        None => d.name@ == p.id@ && d.version@.len() == 0 && d.description@.len() == 0,
    }
    &&& d.enabled == (p.valid && is_enabled && runtime_diagnostic is None)
    &&& d.diagnostic == match p.diagnostic {
        Some(x) => Some(x),
        None => runtime_diagnostic,
    }
    &&& d.load_columns == (p.valid && is_enabled)
    &&& d.show_icon_theme == p.valid
}

/// Describes a discovered plugin for listing, keeping malformed manifests
/// as disabled records.
pub fn describe_plugin(
    plugin: DiscoveredPlugin,
    enabled_plugins: &Vec<String>,
    runtime_diagnostic: Option<String>,
) -> (r: PluginDescription)
    ensures
        describes(r, plugin, enabled_plugins@, runtime_diagnostic),
{
    let is_enabled = contains_text(enabled_plugins, plugin.id.as_str());
    let ghost p = plugin;
    let id = plugin.id;
    let (name, version, description) = match plugin.manifest {
        Some(m) => (m.name, m.version, m.description),
        None => (id.clone(), String::new(), String::new()),
    };
    let enabled = plugin.valid && is_enabled && runtime_diagnostic.is_none();
    let diagnostic = match plugin.diagnostic {
        Some(x) => Some(x),
        None => runtime_diagnostic,
    };
    PluginDescription {
        id,
        name,
        version,
        description,
        enabled,
        diagnostic,
        load_columns: plugin.valid && is_enabled,
        show_icon_theme: plugin.valid,
    }
}

/// Whether a plugin's icon theme declares the asset path asked for.
pub fn icon_asset_declared(declared_paths: &Vec<String>, asset_path: &str) -> (r: Result<
    (),
    ApplicationError,
>)
    ensures
        listed(texts(declared_paths@), asset_path@) ==> r is Ok,
        !listed(texts(declared_paths@), asset_path@) ==> r == Err::<(), ApplicationError>(
            ApplicationError::NotFound,
        ),
{
    if contains_text(declared_paths, asset_path) {
        Ok(())
    } else {
        Err(ApplicationError::NotFound)
    }
}

/// The index of the first valid plugin at or after `i` with identifier `id`.
pub open spec fn first_valid_from(plugins: Seq<DiscoveredPlugin>, id: Seq<char>, i: int) -> Option<
    int,
>
    decreases plugins.len() - i,
{
    if i < 0 || i >= plugins.len() {
        None
    } else if plugins[i].valid && plugins[i].id@ == id {
        Some(i)
    } else {
        first_valid_from(plugins, id, i + 1)
    }
}

/// Finds the first valid discovered plugin with identifier `id`.
pub fn find_valid_plugin(plugins: &Vec<DiscoveredPlugin>, id: &str) -> (r: Option<usize>)
    ensures
        match first_valid_from(plugins@, id@, 0) {
            Some(i) => r == Some(i as usize),
            None => r is None,
        },
{
    let mut i: usize = 0;
    while i < plugins.len()
        invariant
            i <= plugins.len(),
            first_valid_from(plugins@, id@, 0) == first_valid_from(plugins@, id@, i as int),
        decreases plugins.len() - i,
    {
        if plugins[i].valid && crate::text::same_text(plugins[i].id.as_str(), id) {
            return Some(i);
        }
        i = i + 1;
    }
    None
}

/// The plugin whose icon theme may serve assets: the first valid plugin
/// with identifier `plugin_id`, provided that it is enabled; any other
/// request is not found.
pub fn icon_theme_plugin(
    plugins: &Vec<DiscoveredPlugin>,
    enabled_plugins: &Vec<String>,
    plugin_id: &str,
) -> (r: Result<usize, ApplicationError>)
    ensures
        match first_valid_from(plugins@, plugin_id@, 0) {
            Some(i) => if listed(texts(enabled_plugins@), plugin_id@) {
                r == Ok::<usize, ApplicationError>(i as usize)
            } else {
                r == Err::<usize, ApplicationError>(ApplicationError::NotFound)
            },
            None => r == Err::<usize, ApplicationError>(ApplicationError::NotFound),
        },
{
    match find_valid_plugin(plugins, plugin_id) {
        Some(i) => if contains_text(enabled_plugins, plugin_id) {
            Ok(i)
        } else {
            Err(ApplicationError::NotFound)
        },
        None => Err(ApplicationError::NotFound),
    }
}

/// Whether some discovered plugin, valid or not, has identifier `id`.
pub open spec fn discovered(plugins: Seq<DiscoveredPlugin>, id: Seq<char>) -> bool {
    exists|i: int| 0 <= i < plugins.len() && #[trigger] plugins[i].id@ == id
}

/// Logs can be read only for a discovered plugin; any other is not found.
pub fn plugin_log_access(plugins: &Vec<DiscoveredPlugin>, plugin_id: &str) -> (r: Result<
    (),
    ApplicationError,
>)
    ensures
        discovered(plugins@, plugin_id@) ==> r is Ok,
        !discovered(plugins@, plugin_id@) ==> r == Err::<(), ApplicationError>(
            ApplicationError::NotFound,
        ),
{
    let mut i: usize = 0;
    while i < plugins.len()
        invariant
            i <= plugins.len(),
            forall|j: int| 0 <= j < i ==> plugins@[j].id@ != plugin_id@,
        decreases plugins.len() - i,
    {
        if crate::text::same_text(plugins[i].id.as_str(), plugin_id) {
            assert(plugins@[i as int].id@ == plugin_id@);
            return Ok(());
        }
        i = i + 1;
    }
    Err(ApplicationError::NotFound)
}

/// A plugin is described as enabled only when it is valid, its identifier
/// is in the enabled list and the runtime has not disabled it; a plugin
/// missing from the list is never described as enabled, and its columns are
/// not loaded.
pub proof fn law_only_listed_plugins_are_enabled(
    d: PluginDescription,
    p: DiscoveredPlugin,
    enabled_plugins: Seq<String>,
    runtime_diagnostic: Option<String>,
)
    requires
        describes(d, p, enabled_plugins, runtime_diagnostic),
    ensures
        d.enabled <==> (p.valid && runtime_diagnostic is None && exists|i: int|
            0 <= i < enabled_plugins.len() && #[trigger] enabled_plugins[i]@ == p.id@),
        (forall|i: int| 0 <= i < enabled_plugins.len() ==> #[trigger] enabled_plugins[i]@ != p.id@)
            ==> !d.enabled && !d.load_columns,
{
    if exists|i: int| 0 <= i < enabled_plugins.len() && #[trigger] enabled_plugins[i]@ == p.id@ {
        let i = choose|i: int| 0 <= i < enabled_plugins.len() && #[trigger] enabled_plugins[i]@ == p.id@;
        assert(texts(enabled_plugins)[i] == p.id@);
    }
    if listed(texts(enabled_plugins), p.id@) {
        let i = choose|i: int| 0 <= i < texts(enabled_plugins).len() && texts(enabled_plugins)[i] == p.id@;
        assert(enabled_plugins[i]@ == p.id@);
    }
}

} // verus!
