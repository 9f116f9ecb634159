//! The wrap settings file as a document, and the merge that records where the real CLIs
//! live. The document keeps its top-level entries in order; the entries of a table are
//! spelled out, and any other value read from the file is carried through as it was.
use vstd::prelude::*;

use crate::proxy::opt_str_view;
use crate::text::str_eq;

verus! {

/// `toml::Value`, declared so that values read from the file can be carried through; its
/// contents are opaque here.
#[verifier::external_type_specification]
#[verifier::external_body]
pub struct ExTomlValue(toml::Value);

/// A value inside a table of the document: a string written here, or a value read from
/// the file and carried through unchanged.
pub enum DocValue {
    Str(String),
    Raw(toml::Value),
}

pub enum DocValueView {
    Str(Seq<char>),
    Raw(toml::Value),
}

impl View for DocValue {
    type V = DocValueView;

    open spec fn view(&self) -> DocValueView {
        match self {
            DocValue::Str(s) => DocValueView::Str(s@),
            DocValue::Raw(v) => DocValueView::Raw(*v),
        }
    }
}

/// The value of a top-level entry: a table, with its entries in order, or anything else.
pub enum DocItem {
    Table(Vec<(String, DocValue)>),
    Value(toml::Value),
}

pub enum DocItemView {
    Table(Seq<(Seq<char>, DocValueView)>),
    Value(toml::Value),
}

/// The entries of a table, by their views.
pub open spec fn table_view(t: Seq<(String, DocValue)>) -> Seq<(Seq<char>, DocValueView)> {
    t.map_values(|e: (String, DocValue)| (e.0@, e.1@))
}

impl View for DocItem {
    type V = DocItemView;

    open spec fn view(&self) -> DocItemView {
        match self {
            DocItem::Table(t) => DocItemView::Table(table_view(t@)),
            DocItem::Value(v) => DocItemView::Value(*v),
        }
    }
}

/// A settings document: whether its root is a table, and the root's entries in order.
pub struct ConfigDoc {
    pub root_is_table: bool,
    pub entries: Vec<(String, DocItem)>,
}

pub struct ConfigDocView {
    pub root_is_table: bool,
    pub entries: Seq<(Seq<char>, DocItemView)>,
}

/// The top-level entries, by their views.
pub open spec fn entries_view(t: Seq<(String, DocItem)>) -> Seq<(Seq<char>, DocItemView)> {
    t.map_values(|e: (String, DocItem)| (e.0@, e.1@))
}

impl View for ConfigDoc {
    type V = ConfigDocView;

    open spec fn view(&self) -> ConfigDocView {
        ConfigDocView { root_is_table: self.root_is_table, entries: entries_view(self.entries@) }
    }
}

/// The keys of a list of entries, in order.
pub open spec fn keys_of<V>(s: Seq<(Seq<char>, V)>) -> Seq<Seq<char>> {
    s.map_values(|e: (Seq<char>, V)| e.0)
}

/// `i` is the first position of `k` among `keys`.
pub open spec fn is_first_key(keys: Seq<Seq<char>>, k: Seq<char>, i: int) -> bool {
    &&& 0 <= i < keys.len()
    &&& keys[i] == k
    &&& forall|j: int| 0 <= j < i ==> keys[j] != k
}

/// The first position of `k` among `keys`, if it occurs.
pub open spec fn key_index(keys: Seq<Seq<char>>, k: Seq<char>) -> Option<int>
    decreases keys.len(),
{
    if keys.len() == 0 {
        None
    } else if keys[0] == k {
        Some(0)
    } else {
        match key_index(keys.drop_first(), k) {
            Some(i) => Some(i + 1),
            None => None,
        }
    }
}

/// `key_index` gives the first position of the key, and `None` exactly when it is absent.
pub proof fn lemma_key_index(keys: Seq<Seq<char>>, k: Seq<char>)
    ensures
        key_index(keys, k) matches Some(i) ==> is_first_key(keys, k, i),
        key_index(keys, k) is None ==> forall|j: int| 0 <= j < keys.len() ==> keys[j] != k,
    decreases keys.len(),
{
    if keys.len() > 0 && keys[0] != k {
        let rest = keys.drop_first();
        lemma_key_index(rest, k);
        assert forall|j: int| 1 <= j < keys.len() implies keys[j] == rest[j - 1] by {}
    }
}

/// The value stored under `k` (its first occurrence), if any.
pub open spec fn lookup<V>(s: Seq<(Seq<char>, V)>, k: Seq<char>) -> Option<V> {
    match key_index(keys_of(s), k) {
        Some(i) => Some(s[i].1),
        None => None,
    }
}

/// A table with `k` set to `v`: the first entry for `k` is replaced in place, or a new
/// entry is added at the end.
pub open spec fn set_value<V>(t: Seq<(Seq<char>, V)>, k: Seq<char>, v: V) -> Seq<(Seq<char>, V)> {
    match key_index(keys_of(t), k) {
        Some(i) => t.update(i, (k, v)),
        None => t.push((k, v)),
    }
}

pub open spec fn firecrawl_path_key() -> Seq<char> {
    "cli_firecrawl_path"@
}

pub open spec fn tvly_path_key() -> Seq<char> {
    "cli_tvly_path"@
}

pub open spec fn wrap_key() -> Seq<char> {
    "wrap"@
}

/// The `wrap` table with both CLI paths recorded in it.
pub open spec fn wrap_with_paths(
    w: Seq<(Seq<char>, DocValueView)>,
    firecrawl: Seq<char>,
    tvly: Seq<char>,
) -> Seq<(Seq<char>, DocValueView)> {
    set_value(
        set_value(w, firecrawl_path_key(), DocValueView::Str(firecrawl)),
        tvly_path_key(),
        DocValueView::Str(tvly),
    )
}

/// The document with the CLI paths recorded: a missing `wrap` table is added at the end,
/// an existing one gets both paths and keeps its other entries, and a `wrap` entry that is
/// not a table is left as it is. Nothing else changes.
pub open spec fn merged_wrap_paths(d: ConfigDocView, firecrawl: Seq<char>, tvly: Seq<char>) -> ConfigDocView {
    match key_index(keys_of(d.entries), wrap_key()) {
        None => ConfigDocView {
            root_is_table: d.root_is_table,
            entries: d.entries.push(
                (wrap_key(), DocItemView::Table(wrap_with_paths(Seq::empty(), firecrawl, tvly))),
            ),
        },
        Some(i) => match d.entries[i].1 {
            DocItemView::Table(w) => ConfigDocView {
                root_is_table: d.root_is_table,
                entries: d.entries.update(
                    i,
                    (wrap_key(), DocItemView::Table(wrap_with_paths(w, firecrawl, tvly))),
                ),
            },
            DocItemView::Value(_) => d,
        },
    }
}

/// Two keys that are both the first position of `k` are the same position.
proof fn lemma_first_key_unique(keys: Seq<Seq<char>>, k: Seq<char>, i: int, j: int)
    requires
        is_first_key(keys, k, i),
        is_first_key(keys, k, j),
    ensures
        i == j,
{
}

/// Adding a key at the end leaves the first position of every other key as it was.
proof fn lemma_key_index_push(keys: Seq<Seq<char>>, k: Seq<char>, k2: Seq<char>)
    requires
        k2 != k,
    ensures
        key_index(keys.push(k), k2) == key_index(keys, k2),
{
    let pushed = keys.push(k);
    lemma_key_index(keys, k2);
    lemma_key_index(pushed, k2);
    match key_index(keys, k2) {
        Some(i) => {
            assert(is_first_key(pushed, k2, i));
            if let Some(i2) = key_index(pushed, k2) {
                lemma_first_key_unique(pushed, k2, i, i2);
            }
        },
        None => {
            if let Some(i2) = key_index(pushed, k2) {
                assert(pushed[i2] == k2);
                assert(false);
            }
        },
    }
}

/// After `set_value(t, k, v)`, `k` holds `v`, every other key holds what it held, and
/// every entry of another key stays at its position.
pub proof fn lemma_set_value<V>(t: Seq<(Seq<char>, V)>, k: Seq<char>, v: V)
    ensures
        lookup(set_value(t, k, v), k) == Some(v),
        forall|k2: Seq<char>| k2 != k ==> #[trigger] lookup(set_value(t, k, v), k2) == lookup(t, k2),
        t.len() <= set_value(t, k, v).len() <= t.len() + 1,
        forall|j: int| 0 <= j < t.len() && t[j].0 != k ==> #[trigger] set_value(t, k, v)[j] == t[j],
{
    let keys = keys_of(t);
    let r = set_value(t, k, v);
    lemma_key_index(keys, k);
    match key_index(keys, k) {
        Some(i) => {
            assert(keys_of(r) =~= keys);
            assert forall|k2: Seq<char>| k2 != k implies #[trigger] lookup(r, k2) == lookup(t, k2) by {
                lemma_key_index(keys, k2);
            }
        },
        None => {
            assert(keys_of(r) =~= keys.push(k));
            lemma_key_index(keys.push(k), k);
            assert(is_first_key(keys.push(k), k, t.len() as int));
            if let Some(i2) = key_index(keys.push(k), k) {
                lemma_first_key_unique(keys.push(k), k, t.len() as int, i2);
            }
            assert forall|k2: Seq<char>| k2 != k implies #[trigger] lookup(r, k2) == lookup(t, k2) by {
                lemma_key_index_push(keys, k, k2);
                lemma_key_index(keys, k2);
            }
        },
    }
}

/// Setting a key to the value it already holds changes nothing.
pub proof fn lemma_set_value_present<V>(t: Seq<(Seq<char>, V)>, k: Seq<char>, v: V)
    requires
        lookup(t, k) == Some(v),
    ensures
        set_value(t, k, v) == t,
{
    lemma_key_index(keys_of(t), k);
    let i = key_index(keys_of(t), k)->0;
    assert(t[i] == (k, v));
    assert(set_value(t, k, v) =~= t);
}

proof fn lemma_path_keys_differ()
    ensures
        firecrawl_path_key() != tvly_path_key(),
{
    reveal_strlit("cli_firecrawl_path");
    reveal_strlit("cli_tvly_path");
    assert(firecrawl_path_key().len() != tvly_path_key().len());
}

/// In the `wrap` table with the paths recorded, the firecrawl and tvly keys hold the two
/// paths, every other key holds what it held, and every entry of another key stays at its
/// position.
pub proof fn lemma_wrap_with_paths(
    w: Seq<(Seq<char>, DocValueView)>,
    firecrawl: Seq<char>,
    tvly: Seq<char>,
)
    ensures
        lookup(wrap_with_paths(w, firecrawl, tvly), firecrawl_path_key()) == Some(DocValueView::Str(firecrawl)),
        lookup(wrap_with_paths(w, firecrawl, tvly), tvly_path_key()) == Some(DocValueView::Str(tvly)),
        forall|k: Seq<char>|
            k != firecrawl_path_key() && k != tvly_path_key() ==> #[trigger] lookup(wrap_with_paths(w, firecrawl, tvly), k)
                == lookup(w, k),
        forall|j: int|
            0 <= j < w.len() && w[j].0 != firecrawl_path_key() && w[j].0 != tvly_path_key()
                ==> #[trigger] wrap_with_paths(w, firecrawl, tvly)[j] == w[j],
{
    let fk = firecrawl_path_key();
    let tk = tvly_path_key();
    let w1 = set_value(w, fk, DocValueView::Str(firecrawl));
    lemma_path_keys_differ();
    lemma_set_value(w, fk, DocValueView::Str(firecrawl));
    lemma_set_value(w1, tk, DocValueView::Str(tvly));
    assert(lookup(set_value(w1, tk, DocValueView::Str(tvly)), fk) == lookup(w1, fk));
    assert forall|j: int|
        0 <= j < w.len() && w[j].0 != fk && w[j].0 != tk implies #[trigger] wrap_with_paths(w, firecrawl, tvly)[j] == w[j] by {
        assert(w1[j] == w[j]);
    }
}

/// Recording the paths keeps every top-level entry other than `wrap` where it was, in
/// order, adds at most one entry (the new `wrap` table, at the end), and keeps whether the
/// root is a table.
pub proof fn lemma_merge_keeps_other_entries(d: ConfigDocView, firecrawl: Seq<char>, tvly: Seq<char>)
    ensures
        merged_wrap_paths(d, firecrawl, tvly).root_is_table == d.root_is_table,
        d.entries.len() <= merged_wrap_paths(d, firecrawl, tvly).entries.len() <= d.entries.len() + 1,
        forall|i: int|
            0 <= i < d.entries.len() && d.entries[i].0 != wrap_key()
                ==> #[trigger] merged_wrap_paths(d, firecrawl, tvly).entries[i] == d.entries[i],
        forall|i: int|
            d.entries.len() <= i < merged_wrap_paths(d, firecrawl, tvly).entries.len()
                ==> #[trigger] merged_wrap_paths(d, firecrawl, tvly).entries[i].0 == wrap_key(),
{
    lemma_key_index(keys_of(d.entries), wrap_key());
}

/// Where `wrap` is missing or a table, the document afterwards has a `wrap` table in
/// which the firecrawl and tvly keys hold the two paths and every other key holds what it
/// held before.
pub proof fn lemma_merge_records_paths(d: ConfigDocView, firecrawl: Seq<char>, tvly: Seq<char>)
    requires
        !(lookup(d.entries, wrap_key()) matches Some(DocItemView::Value(_))),
    ensures
        ({
            let m = merged_wrap_paths(d, firecrawl, tvly);
            let before = match lookup(d.entries, wrap_key()) {
                Some(DocItemView::Table(w)) => w,
                _ => Seq::empty(),
            };
            &&& lookup(m.entries, wrap_key()) == Some(DocItemView::Table(wrap_with_paths(before, firecrawl, tvly)))
            &&& lookup(wrap_with_paths(before, firecrawl, tvly), firecrawl_path_key()) == Some(DocValueView::Str(firecrawl))
            &&& lookup(wrap_with_paths(before, firecrawl, tvly), tvly_path_key()) == Some(DocValueView::Str(tvly))
            &&& forall|k: Seq<char>|
                k != firecrawl_path_key() && k != tvly_path_key()
                    ==> #[trigger] lookup(wrap_with_paths(before, firecrawl, tvly), k) == lookup(before, k)
        }),
{
    let keys = keys_of(d.entries);
    let m = merged_wrap_paths(d, firecrawl, tvly);
    lemma_key_index(keys, wrap_key());
    match key_index(keys, wrap_key()) {
        Some(i) => {
            assert(keys_of(m.entries) =~= keys);
            let w = d.entries[i].1->Table_0;
            lemma_wrap_with_paths(w, firecrawl, tvly);
        },
        None => {
            assert(keys_of(m.entries) =~= keys.push(wrap_key()));
            lemma_key_index(keys.push(wrap_key()), wrap_key());
            assert(is_first_key(keys.push(wrap_key()), wrap_key(), d.entries.len() as int));
            if let Some(i2) = key_index(keys.push(wrap_key()), wrap_key()) {
                lemma_first_key_unique(keys.push(wrap_key()), wrap_key(), d.entries.len() as int, i2);
            }
            lemma_wrap_with_paths(Seq::empty(), firecrawl, tvly);
        },
    }
}

/// Recording the same paths a second time changes nothing: installing twice leaves the
/// document as installing once did.
pub proof fn lemma_merge_idempotent(d: ConfigDocView, firecrawl: Seq<char>, tvly: Seq<char>)
    ensures
        merged_wrap_paths(merged_wrap_paths(d, firecrawl, tvly), firecrawl, tvly)
            == merged_wrap_paths(d, firecrawl, tvly),
{
    let keys = keys_of(d.entries);
    let m = merged_wrap_paths(d, firecrawl, tvly);
    lemma_key_index(keys, wrap_key());
    let w = match key_index(keys, wrap_key()) {
        Some(i) => match d.entries[i].1 {
            DocItemView::Table(w) => w,
            DocItemView::Value(_) => Seq::empty(),
        },
        None => Seq::empty(),
    };
    let w2 = wrap_with_paths(w, firecrawl, tvly);
    lemma_wrap_with_paths(w, firecrawl, tvly);
    lemma_path_keys_differ();
    lemma_set_value_present(w2, firecrawl_path_key(), DocValueView::Str(firecrawl));
    lemma_set_value_present(w2, tvly_path_key(), DocValueView::Str(tvly));
    assert(wrap_with_paths(w2, firecrawl, tvly) == w2);
    match key_index(keys, wrap_key()) {
        Some(i) => {
            if d.entries[i].1 is Table {
                assert(keys_of(m.entries) =~= keys);
                assert(m.entries.update(i, (wrap_key(), DocItemView::Table(w2))) =~= m.entries);
            }
        },
        None => {
            let n = d.entries.len() as int;
            assert(keys_of(m.entries) =~= keys.push(wrap_key()));
            lemma_key_index(keys.push(wrap_key()), wrap_key());
            assert(is_first_key(keys.push(wrap_key()), wrap_key(), n));
            if let Some(i2) = key_index(keys.push(wrap_key()), wrap_key()) {
                lemma_first_key_unique(keys.push(wrap_key()), wrap_key(), n, i2);
            }
            assert(m.entries.update(n, (wrap_key(), DocItemView::Table(w2))) =~= m.entries);
        },
    }
}

/// The position of the first entry named `k`.
fn find_key<V>(s: &Vec<(String, V)>, k: &str) -> (r: Option<usize>)
    ensures
        r matches Some(i) ==> i < s.len() && key_index(s@.map_values(|e: (String, V)| e.0@), k@) == Some(i as int),
        r is None ==> key_index(s@.map_values(|e: (String, V)| e.0@), k@) is None,
{
    let ghost keys = s@.map_values(|e: (String, V)| e.0@);
    let mut i: usize = 0;
    while i < s.len()
        invariant
            i <= s.len(),
            keys == s@.map_values(|e: (String, V)| e.0@),
            forall|j: int| 0 <= j < i ==> keys[j] != k@,
        decreases s.len() - i,
    {
        if str_eq(s[i].0.as_str(), k) {
            proof {
                lemma_key_index(keys, k@);
                assert(is_first_key(keys, k@, i as int));
            }
            return Some(i);
        }
        i = i + 1;
    }
    proof {
        lemma_key_index(keys, k@);
    }
    None
}

/// Sets `k` to `v` in a table (see `set_value`).
fn set_in_table(t: &mut Vec<(String, DocValue)>, k: &str, v: DocValue)
    ensures
        table_view(final(t)@) == set_value(table_view(old(t)@), k@, v@),
{
    let ghost old_view = table_view(t@);
    proof {
        assert(keys_of(old_view) =~= t@.map_values(|e: (String, DocValue)| e.0@));
    }
    match find_key(t, k) {
        Some(i) => {
            t.set(i, (k.to_owned(), v));
            proof {
                assert(table_view(t@) =~= old_view.update(i as int, (k@, v@)));
            }
        },
        None => {
            t.push((k.to_owned(), v));
            proof {
                assert(table_view(t@) =~= old_view.push((k@, v@)));
            }
        },
    }
}

/// Records both CLI paths in a `wrap` table.
fn record_paths(t: &mut Vec<(String, DocValue)>, firecrawl: &str, tvly: &str)
    ensures
        table_view(final(t)@) == wrap_with_paths(table_view(old(t)@), firecrawl@, tvly@),
{
    set_in_table(t, "cli_firecrawl_path", DocValue::Str(firecrawl.to_owned()));
    set_in_table(t, "cli_tvly_path", DocValue::Str(tvly.to_owned()));
}

/// Records the real CLI paths in a settings document (see `merged_wrap_paths`). A document
/// whose root is not a table is refused.
pub fn merge_wrap_paths(doc: ConfigDoc, firecrawl: &str, tvly: &str) -> (r: Result<ConfigDoc, String>)
    ensures
        r is Err <==> !doc@.root_is_table,
        r matches Err(m) ==> m@ == "config root is not a table"@,
        r matches Ok(d) ==> d@ == merged_wrap_paths(doc@, firecrawl@, tvly@),
{
    if !doc.root_is_table {
        return Err("config root is not a table".to_owned());
    }
    let ghost dv = doc@;
    let mut entries = doc.entries;
    proof {
        assert(keys_of(dv.entries) =~= entries@.map_values(|e: (String, DocItem)| e.0@));
    }
    match find_key(&entries, "wrap") {
        None => {
            let mut w: Vec<(String, DocValue)> = Vec::new();
            proof {
                assert(table_view(w@) =~= Seq::<(Seq<char>, DocValueView)>::empty());
            }
            record_paths(&mut w, firecrawl, tvly);
            entries.push(("wrap".to_owned(), DocItem::Table(w)));
            proof {
                assert(entries_view(entries@) =~= merged_wrap_paths(dv, firecrawl@, tvly@).entries);
            }
        },
        Some(i) => {
            proof {
                lemma_key_index(keys_of(dv.entries), wrap_key());
            }
            let (k, item) = entries.remove(i);
            let new_item = match item {
                DocItem::Table(w) => {
                    let mut w = w;
                    record_paths(&mut w, firecrawl, tvly);
                    DocItem::Table(w)
                },
                DocItem::Value(x) => DocItem::Value(x),
            };
            entries.insert(i, (k, new_item));
            proof {
                assert(entries_view(entries@) =~= merged_wrap_paths(dv, firecrawl@, tvly@).entries);
            }
        },
    }
    Ok(ConfigDoc { root_is_table: true, entries })
}

/// What reading TOML text as a settings document gives (`toml::from_str` into a
/// `toml::Value`): `None` when the text is not valid TOML.
pub uninterp spec fn spec_parse_toml(text: Seq<char>) -> Option<ConfigDocView>;

/// What writing a settings document as TOML text gives (`toml::to_string_pretty` of the
/// document as a `toml::Value`): `None` when the serializer fails.
pub uninterp spec fn spec_render_toml(d: ConfigDocView) -> Option<Seq<char>>;

pub open spec fn opt_doc_view(o: Option<ConfigDoc>) -> Option<ConfigDocView> {
    match o {
        Some(d) => Some(d@),
        None => None,
    }
}

pub open spec fn opt_string_view(o: Option<String>) -> Option<Seq<char>> {
    match o {
        Some(s) => Some(s@),
        None => None,
    }
}

/// Reads TOML text as a settings document: `toml::from_str::<toml::Value>`, then the root
/// table's entries as they come out of the `toml::Table`, each table among them with its
/// own entries, and every other value carried through as it is. The result is named by
/// `spec_parse_toml`, a function of the text alone; what toml accepts is not stated here.
#[verifier::external_body]
fn parse_config_doc(text: &str) -> (r: Option<ConfigDoc>)
    ensures
        opt_doc_view(r) == spec_parse_toml(text@),
{
    match toml::from_str::<toml::Value>(text) {
        Err(_) => None,
        Ok(toml::Value::Table(t)) => Some(ConfigDoc { root_is_table: true, entries: t.into_iter().map(|(k, v)| (k, match v {
            toml::Value::Table(w) => DocItem::Table(w.into_iter().map(|(k2, x)| (k2, DocValue::Raw(x))).collect()),
            other => DocItem::Value(other),
        })).collect() }),
        Ok(_) => Some(ConfigDoc { root_is_table: false, entries: Vec::new() }),
    }
}

/// Writes a settings document as TOML text: the entries become a `toml::Table` (a string
/// value as `toml::Value::String`), and `toml::to_string_pretty` writes it. The result is
/// named by `spec_render_toml`, a function of the document alone; the text toml writes is
/// not stated here.
#[verifier::external_body]
fn render_config_doc(d: &ConfigDoc) -> (r: Option<String>)
    ensures
        opt_string_view(r) == spec_render_toml(d@),
{
    let root: toml::Table = d.entries.iter().map(|(k, item)| (k.clone(), match item {
        DocItem::Table(w) => toml::Value::Table(w.iter().map(|(k2, v)| (k2.clone(), match v {
            DocValue::Str(s) => toml::Value::String(s.clone()),
            DocValue::Raw(x) => x.clone(),
        })).collect()),
        DocItem::Value(x) => x.clone(),
    })).collect();
    toml::to_string_pretty(&toml::Value::Table(root)).ok()
}

/// A settings document with no entries.
pub open spec fn empty_doc() -> ConfigDocView {
    ConfigDocView { root_is_table: true, entries: Seq::empty() }
}

pub open spec fn result_view(r: Result<String, String>) -> Result<Seq<char>, Seq<char>> {
    match r {
        Ok(s) => Ok(s@),
        Err(e) => Err(e@),
    }
}

/// The new text of the settings file after recording the CLI paths in it, starting from
/// its current text (`None`: there is no file yet, which is read as an empty document).
/// Text that is not valid TOML is refused, so such a file is never overwritten.
pub open spec fn spec_wrap_paths_text(
    existing: Option<Seq<char>>,
    firecrawl: Seq<char>,
    tvly: Seq<char>,
) -> Result<Seq<char>, Seq<char>> {
    let start = match existing {
        None => Some(empty_doc()),
        Some(text) => spec_parse_toml(text),
    };
    match start {
        None => Err("config file is not valid TOML"@),
        Some(d) => if !d.root_is_table {
            Err("config root is not a table"@)
        } else {
            match spec_render_toml(merged_wrap_paths(d, firecrawl, tvly)) {
                Some(out) => Ok(out),
                None => Err("could not write config as TOML"@),
            }
        },
    }
}

/// Records the real CLI paths in the settings file's text (see `spec_wrap_paths_text`).
pub fn wrap_paths_text(existing: Option<&str>, firecrawl: &str, tvly: &str) -> (r: Result<String, String>)
    ensures
        result_view(r) == spec_wrap_paths_text(opt_str_view(existing), firecrawl@, tvly@),
{
    let doc = match existing {
        None => {
            let d = ConfigDoc { root_is_table: true, entries: Vec::new() };
            assert(d@.entries =~= empty_doc().entries);
            d
        },
        Some(text) => match parse_config_doc(text) {
            None => return Err("config file is not valid TOML".to_owned()),
            Some(d) => d,
        },
    };
    let merged = match merge_wrap_paths(doc, firecrawl, tvly) {
        Ok(m) => m,
        Err(e) => return Err(e),
    };
    match render_config_doc(&merged) {
        Some(out) => Ok(out),
        None => Err("could not write config as TOML".to_owned()),
    }
}

} // verus!
