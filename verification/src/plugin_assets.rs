//! Plugin-declared asset types: the table of registered types (who owns a
//! type id, where its system and user files live, the permission globs
//! derived from those directories) and the file name rules for uploads.
use vstd::prelude::*;

use crate::paths::{opt_chars, path_join, path_join_of, join_text, path_parent, path_parent_of, parent_text, path_starts_with, path_starts_with_of};
use crate::permissions::texts;
use crate::text::{ascii_lower, is_ascii_char, is_ascii_text, chars_equal, chars_of, contains, contains_char, contains_seq, decimal, decimal_chars, eq_ignore_ascii_case, eq_ignore_case, extend_chars, extend_str, is_ascii_alnum, is_ascii_alnum_char, join_chars, join_with, skip_chars, str_equal, string_of};
use crate::net::split_on;
use crate::paths::{last_index_of, rfind_char};
use crate::unicode::{to_lowercase, unicode_lower_of};

verus! {

/// Longest accepted upload file name, in bytes.
pub const MAX_FILENAME_LENGTH: usize = 255;

/// Cap on any asset type's `max_size_bytes` (100 MiB).
pub const MAX_ASSET_SIZE_BYTES: usize = 104857600;

/// Whether an asset type holds text or binary files.
#[derive(Clone, Copy, Debug, PartialEq, Eq, Structural)]
pub enum AssetContentType {
    Text,
    Binary,
}

/// An asset type as a plugin manifest declares it.
#[derive(Debug)]
pub struct PluginAssetSpec {
    pub type_id: String,
    pub label: String,
    pub extensions: Vec<String>,
    pub max_size_bytes: usize,
    pub content_type: AssetContentType,
    pub icon_hint: Option<String>,
    pub node_param: Option<String>,
    pub system_dir: Option<String>,
}

/// A fully resolved asset type registered by a loaded plugin.
#[derive(Debug)]
pub struct RegisteredAssetType {
    pub type_id: String,
    pub plugin_id: String,
    pub node_kind: String,
    pub label: String,
    pub extensions: Vec<String>,
    pub max_size_bytes: usize,
    pub content_type: AssetContentType,
    pub icon_hint: Option<String>,
    pub node_param: Option<String>,
    pub system_dir: String,
    pub user_dir: String,
}

pub struct AssetTypeView {
    pub type_id: Seq<char>,
    pub plugin_id: Seq<char>,
    pub node_kind: Seq<char>,
    pub label: Seq<char>,
    pub extensions: Seq<Seq<char>>,
    pub max_size_bytes: usize,
    pub content_type: AssetContentType,
    pub icon_hint: Option<Seq<char>>,
    pub node_param: Option<Seq<char>>,
    pub system_dir: Seq<char>,
    pub user_dir: Seq<char>,
}

impl View for RegisteredAssetType {
    type V = AssetTypeView;

    open spec fn view(&self) -> AssetTypeView {
        AssetTypeView {
            type_id: self.type_id@,
            plugin_id: self.plugin_id@,
            node_kind: self.node_kind@,
            label: self.label@,
            extensions: texts(self.extensions@),
            max_size_bytes: self.max_size_bytes,
            content_type: self.content_type,
            icon_hint: opt_chars(self.icon_hint),
            node_param: opt_chars(self.node_param),
            system_dir: self.system_dir@,
            user_dir: self.user_dir@,
        }
    }
}

fn copy_string(s: &String) -> (r: String)
    ensures
        r@ == s@,
{
    s.clone()
}

fn copy_opt(s: &Option<String>) -> (r: Option<String>)
    ensures
        opt_chars(r) == opt_chars(*s),
{
    match s {
        Some(x) => Some(copy_string(x)),
        None => None,
    }
}

fn copy_strings(v: &Vec<String>) -> (r: Vec<String>)
    ensures
        texts(r@) == texts(v@),
{
    let mut r: Vec<String> = Vec::new();
    for i in 0..v.len()
        invariant
            r@.len() == i,
            forall|k: int| 0 <= k < i ==> #[trigger] r@[k]@ == v@[k]@,
    {
        r.push(copy_string(&v[i]));
    }
    assert(texts(r@) =~= texts(v@));
    r
}

impl RegisteredAssetType {
    /// A copy of this registration.
    pub fn duplicate(&self) -> (r: Self)
        ensures
            r@ == self@,
    {
        RegisteredAssetType {
            type_id: copy_string(&self.type_id),
            plugin_id: copy_string(&self.plugin_id),
            node_kind: copy_string(&self.node_kind),
            label: copy_string(&self.label),
            extensions: copy_strings(&self.extensions),
            max_size_bytes: self.max_size_bytes,
            content_type: self.content_type,
            icon_hint: copy_opt(&self.icon_hint),
            node_param: copy_opt(&self.node_param),
            system_dir: copy_string(&self.system_dir),
            user_dir: copy_string(&self.user_dir),
        }
    }
}

// ---------------------------------------------------------------------------
// Registration rules
// ---------------------------------------------------------------------------

/// Type ids are URL-safe identifiers: `[A-Za-z0-9_-]+`.
pub open spec fn valid_type_id(t: Seq<char>) -> bool {
    t.len() > 0 && forall|i: int| 0 <= i < t.len() ==> is_ascii_alnum(#[trigger] t[i]) || t[i]
        == '_' || t[i] == '-'
}

/// A path that is absolute or climbs with a `..` component.
pub open spec fn has_path_traversal(d: Seq<char>) -> bool {
    (d.len() > 0 && d[0] == '/') || split_on(d, '/').contains(".."@)
}

pub open spec fn default_system_dir(type_id: Seq<char>) -> Seq<char> {
    "samples/"@ + type_id + "/system"@
}

pub open spec fn default_user_dir(type_id: Seq<char>) -> Seq<char> {
    "samples/"@ + type_id + "/user"@
}

/// The user directory beside a system directory: `user` in the system
/// directory's parent, or `samples/<type>/user` when it has no parent.
pub open spec fn user_dir_for(type_id: Seq<char>, system_dir: Seq<char>) -> Seq<char> {
    match parent_text(system_dir) {
        Some(p) => if p.len() > 0 {
            join_text(p, "user"@)
        } else {
            default_user_dir(type_id)
        },
        None => default_user_dir(type_id),
    }
}

pub open spec fn min_size(a: usize, b: usize) -> usize {
    if a < b {
        a
    } else {
        b
    }
}

/// The registration that a valid spec yields.
pub open spec fn registration_of(plugin_id: Seq<char>, node_kind: Seq<char>, spec: PluginAssetSpec) -> AssetTypeView {
    let system_dir = match spec.system_dir {
        Some(d) => d@,
        None => default_system_dir(spec.type_id@),
    };
    AssetTypeView {
        type_id: spec.type_id@,
        plugin_id,
        node_kind,
        label: spec.label@,
        extensions: texts(spec.extensions@),
        max_size_bytes: min_size(spec.max_size_bytes, MAX_ASSET_SIZE_BYTES),
        content_type: spec.content_type,
        icon_hint: opt_chars(spec.icon_hint),
        node_param: opt_chars(spec.node_param),
        system_dir,
        user_dir: user_dir_for(spec.type_id@, system_dir),
    }
}

pub open spec fn index_of_type(entries: Seq<AssetTypeView>, type_id: Seq<char>) -> Option<int> {
    if exists|i: int| 0 <= i < entries.len() && entries[i].type_id == type_id {
        Some(choose|i: int| 0 <= i < entries.len() && entries[i].type_id == type_id)
    } else {
        None
    }
}

/// The table after one spec of plugin `plugin_id` is offered: invalid
/// specs and type ids owned by another plugin are skipped; the owner's
/// re-registration replaces its entry; a new type id is appended.
pub open spec fn register_one(
    entries: Seq<AssetTypeView>,
    plugin_id: Seq<char>,
    node_kind: Seq<char>,
    spec: PluginAssetSpec,
) -> Seq<AssetTypeView> {
    if !valid_type_id(spec.type_id@) {
        entries
    } else if spec.system_dir is Some && has_path_traversal(spec.system_dir->0@) {
        entries
    } else {
        match index_of_type(entries, spec.type_id@) {
            Some(i) => if entries[i].plugin_id != plugin_id {
                entries
            } else {
                entries.update(i, registration_of(plugin_id, node_kind, spec))
            },
            None => entries.push(registration_of(plugin_id, node_kind, spec)),
        }
    }
}

pub open spec fn register_all(
    entries: Seq<AssetTypeView>,
    plugin_id: Seq<char>,
    node_kind: Seq<char>,
    specs: Seq<PluginAssetSpec>,
) -> Seq<AssetTypeView>
    decreases specs.len(),
{
    if specs.len() == 0 {
        entries
    } else {
        register_one(
            register_all(entries, plugin_id, node_kind, specs.drop_last()),
            plugin_id,
            node_kind,
            specs.last(),
        )
    }
}

/// Whether offering `spec` to the table registers it: a valid type id, a
/// system directory without traversal, and a type id that no other plugin
/// owns.
pub open spec fn registers(entries: Seq<AssetTypeView>, plugin_id: Seq<char>, spec: PluginAssetSpec) -> bool {
    &&& valid_type_id(spec.type_id@)
    &&& !(spec.system_dir is Some && has_path_traversal(spec.system_dir->0@))
    &&& match index_of_type(entries, spec.type_id@) {
        Some(i) => entries[i].plugin_id == plugin_id,
        None => true,
    }
}

/// How many of `specs`, offered in order, are registered.
pub open spec fn registered_count(
    entries: Seq<AssetTypeView>,
    plugin_id: Seq<char>,
    node_kind: Seq<char>,
    specs: Seq<PluginAssetSpec>,
) -> nat
    decreases specs.len(),
{
    if specs.len() == 0 {
        0
    } else {
        registered_count(entries, plugin_id, node_kind, specs.drop_last()) + if registers(
            register_all(entries, plugin_id, node_kind, specs.drop_last()),
            plugin_id,
            specs.last(),
        ) {
            1nat
        } else {
            0nat
        }
    }
}

/// Type ids are unique in the table.
pub open spec fn distinct_type_ids(entries: Seq<AssetTypeView>) -> bool {
    forall|i: int, j: int|
        0 <= i < entries.len() && 0 <= j < entries.len() && i != j ==> #[trigger] entries[i].type_id
            != #[trigger] entries[j].type_id
}

pub open spec fn views(v: Seq<RegisteredAssetType>) -> Seq<AssetTypeView> {
    v.map_values(|r: RegisteredAssetType| r@)
}

/// The `(system, user)` permission globs of each registered type.
pub open spec fn permission_patterns_of(entries: Seq<AssetTypeView>) -> Seq<(Seq<char>, Seq<char>)> {
    entries.map_values(|e: AssetTypeView| (e.system_dir + "/*"@, e.user_dir + "/*"@))
}

/// The table of registered plugin asset types.
pub struct PluginAssetRegistry {
    entries: Vec<RegisteredAssetType>,
}

impl View for PluginAssetRegistry {
    type V = Seq<AssetTypeView>;

    closed spec fn view(&self) -> Seq<AssetTypeView> {
        views(self.entries@)
    }
}

fn is_type_id_char(c: char) -> (r: bool)
    ensures
        r == (is_ascii_alnum(c) || c == '_' || c == '-'),
{
    is_ascii_alnum_char(c) || c == '_' || c == '-'
}

/// Whether `t` is a valid type id.
pub fn is_valid_type_id(t: &str) -> (r: bool)
    ensures
        r == valid_type_id(t@),
{
    let v = chars_of(t);
    if v.len() == 0 {
        return false;
    }
    for i in 0..v.len()
        invariant
            v@ == t@,
            forall|j: int| 0 <= j < i ==> is_ascii_alnum(#[trigger] v@[j]) || v@[j] == '_' || v@[j]
                == '-',
    {
        if !is_type_id_char(v[i]) {
            assert(!(is_ascii_alnum(t@[i as int]) || t@[i as int] == '_' || t@[i as int] == '-'));
            return false;
        }
    }
    true
}

/// Whether directory `d` is absolute or has a `..` component.
pub fn path_has_traversal(d: &str) -> (r: bool)
    ensures
        r == has_path_traversal(d@),
{
    let v = chars_of(d);
    if v.len() > 0 && v[0] == '/' {
        return true;
    }
    let parts = crate::net::split_chars(&v, '/');
    let dotdot = chars_of("..");
    for i in 0..parts.len()
        invariant
            v@ == d@,
            dotdot@ == ".."@,
            parts@.len() == split_on(v@, '/').len(),
            forall|k: int| 0 <= k < parts@.len() ==> #[trigger] parts@[k]@ == split_on(v@, '/')[k],
            forall|k: int| 0 <= k < i ==> split_on(v@, '/')[k] != ".."@,
    {
        if chars_equal(&parts[i], &dotdot) {
            assert(split_on(v@, '/')[i as int] == ".."@);
            assert(split_on(v@, '/').contains(".."@));
            return true;
        }
    }
    assert(!split_on(v@, '/').contains(".."@));
    false
}

fn user_dir_of(type_id: &String, system_dir: &String) -> (r: String)
    ensures
        r@ == user_dir_for(type_id@, system_dir@),
{
    match path_parent(system_dir.as_str()) {
        Some(p) => {
            if p.as_str().unicode_len() > 0 {
                path_join(p.as_str(), "user")
            } else {
                default_user(type_id)
            }
        },
        None => default_user(type_id),
    }
}

fn default_user(type_id: &String) -> (r: String)
    ensures
        r@ == default_user_dir(type_id@),
{
    let mut m: Vec<char> = Vec::new();
    extend_str(&mut m, "samples/");
    extend_str(&mut m, type_id.as_str());
    extend_str(&mut m, "/user");
    string_of(&m)
}

fn default_system(type_id: &String) -> (r: String)
    ensures
        r@ == default_system_dir(type_id@),
{
    let mut m: Vec<char> = Vec::new();
    extend_str(&mut m, "samples/");
    extend_str(&mut m, type_id.as_str());
    extend_str(&mut m, "/system");
    string_of(&m)
}

fn build_registration(plugin_id: &str, node_kind: &str, spec: &PluginAssetSpec) -> (r: RegisteredAssetType)
    ensures
        r@ == registration_of(plugin_id@, node_kind@, *spec),
{
    let system_dir = match &spec.system_dir {
        Some(d) => copy_string(d),
        None => default_system(&spec.type_id),
    };
    let user_dir = user_dir_of(&spec.type_id, &system_dir);
    let max_size_bytes = if spec.max_size_bytes < MAX_ASSET_SIZE_BYTES {
        spec.max_size_bytes
    } else {
        MAX_ASSET_SIZE_BYTES
    };
    RegisteredAssetType {
        type_id: copy_string(&spec.type_id),
        plugin_id: plugin_id.to_owned(),
        node_kind: node_kind.to_owned(),
        label: copy_string(&spec.label),
        extensions: copy_strings(&spec.extensions),
        max_size_bytes,
        content_type: spec.content_type,
        icon_hint: copy_opt(&spec.icon_hint),
        node_param: copy_opt(&spec.node_param),
        system_dir,
        user_dir,
    }
}

impl PluginAssetRegistry {
    /// Type ids in the table are unique.
    pub closed spec fn well_formed(&self) -> bool {
        distinct_type_ids(self@)
    }

    /// An empty table.
    pub fn new() -> (r: Self)
        ensures
            r@ == Seq::<AssetTypeView>::empty(),
            r.well_formed(),
    {
        let r = PluginAssetRegistry { entries: Vec::new() };
        assert(r@ =~= Seq::<AssetTypeView>::empty());
        r
    }

    fn find(&self, type_id: &str) -> (r: Option<usize>)
        ensures
            match r {
                Some(i) => i < self@.len() && self@[i as int].type_id == type_id@,
                None => index_of_type(self@, type_id@) is None,
            },
    {
        for i in 0..self.entries.len()
            invariant
                forall|j: int| 0 <= j < i ==> self@[j].type_id != type_id@,
        {
            if str_equal(self.entries[i].type_id.as_str(), type_id) {
                return Some(i);
            }
        }
        None
    }

    fn register_spec(&mut self, plugin_id: &str, node_kind: &str, spec: &PluginAssetSpec) -> (r: bool)
        requires
            old(self).well_formed(),
        ensures
            final(self).well_formed(),
            final(self)@ == register_one(old(self)@, plugin_id@, node_kind@, *spec),
            r == registers(old(self)@, plugin_id@, *spec),
    {
        if !is_valid_type_id(spec.type_id.as_str()) {
            return false;
        }
        if let Some(d) = &spec.system_dir {
            if path_has_traversal(d.as_str()) {
                return false;
            }
        }
        let registered = build_registration(plugin_id, node_kind, spec);
        match self.find(spec.type_id.as_str()) {
            Some(i) => {
                proof {
                    assert(exists|k: int| 0 <= k < self@.len() && self@[k].type_id == spec.type_id@);
                    let c = choose|k: int| 0 <= k < self@.len() && self@[k].type_id == spec.type_id@;
                    assert(c == i);
                }
                if !str_equal(self.entries[i].plugin_id.as_str(), plugin_id) {
                    return false;
                }
                let ghost before = self@;
                self.entries.set(i, registered);
                assert(self@ =~= before.update(i as int, registration_of(plugin_id@, node_kind@, *spec)));
                true
            },
            None => {
                let ghost before = self@;
                self.entries.push(registered);
                assert(self@ =~= before.push(registration_of(plugin_id@, node_kind@, *spec)));
                true
            },
        }
    }

    /// Registers the asset types that plugin `plugin_id` declares, and
    /// returns how many were registered.
    pub fn register(&mut self, plugin_id: &str, node_kind: &str, specs: &Vec<PluginAssetSpec>) -> (r: usize)
        requires
            old(self).well_formed(),
        ensures
            final(self).well_formed(),
            final(self)@ == register_all(old(self)@, plugin_id@, node_kind@, specs@),
            r == registered_count(old(self)@, plugin_id@, node_kind@, specs@),
    {
        let ghost start = self@;
        let mut count: usize = 0;
        for i in 0..specs.len()
            invariant
                self.well_formed(),
                self@ == register_all(start, plugin_id@, node_kind@, specs@.take(i as int)),
                count == registered_count(start, plugin_id@, node_kind@, specs@.take(i as int)),
                count <= i,
        {
            assert(specs@.take(i + 1).drop_last() =~= specs@.take(i as int));
            assert(specs@.take(i + 1).last() == specs@[i as int]);
            if self.register_spec(plugin_id, node_kind, &specs[i]) {
                count = count + 1;
            }
        }
        assert(specs@.take(specs.len() as int) =~= specs@);
        count
    }

    /// Removes every type that plugin `plugin_id` owns.
    pub fn unregister_plugin(&mut self, plugin_id: &str)
        requires
            old(self).well_formed(),
        ensures
            final(self).well_formed(),
            final(self)@ == others_of(old(self)@, plugin_id@),
    {
        let ghost pred = |e: AssetTypeView| e.plugin_id != plugin_id@;
        let ghost old_view = self@;
        let mut kept: Vec<RegisteredAssetType> = Vec::new();
        let mut i: usize = 0;
        while i < self.entries.len()
            invariant
                i <= self.entries.len(),
                self@ == old_view,
                distinct_type_ids(old_view),
                views(kept@) == old_view.take(i as int).filter(pred),
                pred == (|e: AssetTypeView| e.plugin_id != plugin_id@),
            decreases self.entries.len() - i,
        {
            assert(old_view.take(i + 1).drop_last() =~= old_view.take(i as int));
            assert(old_view.take(i + 1).last() == old_view[i as int]);
            assert(old_view[i as int] == self.entries@[i as int]@);
            reveal_with_fuel(Seq::<_>::filter, 1);
            let ghost before = views(kept@);
            if !str_equal(self.entries[i].plugin_id.as_str(), plugin_id) {
                kept.push(self.entries[i].duplicate());
                assert(views(kept@) =~= before.push(old_view[i as int]));
                assert(old_view.take(i + 1).filter(pred) == before.push(old_view[i as int]));
            } else {
                assert(old_view.take(i + 1).filter(pred) == before);
            }
            i = i + 1;
        }
        assert(old_view.take(self.entries.len() as int) =~= old_view);
        self.entries = kept;
        proof {
            let f = old_view.filter(pred);
            assert forall|a: int, b: int|
                0 <= a < f.len() && 0 <= b < f.len() && a != b implies #[trigger] f[a].type_id
                != #[trigger] f[b].type_id by {
                lemma_filter_distinct(old_view, pred, a, b);
            }
        }
    }

    /// The `(system, user)` permission globs of the registered types.
    pub fn registered_permission_patterns(&self) -> (r: Vec<(String, String)>)
        ensures
            crate::permissions::pattern_texts(r@) == permission_patterns_of(self@),
    {
        let mut r: Vec<(String, String)> = Vec::new();
        for i in 0..self.entries.len()
            invariant
                r@.len() == i,
                forall|k: int| 0 <= k < i ==> (#[trigger] r@[k]).0@ == self.entries@[k].system_dir@
                    + "/*"@ && r@[k].1@ == self.entries@[k].user_dir@ + "/*"@,
        {
            let mut s = chars_of(self.entries[i].system_dir.as_str());
            extend_str(&mut s, "/*");
            let mut u = chars_of(self.entries[i].user_dir.as_str());
            extend_str(&mut u, "/*");
            r.push((string_of(&s), string_of(&u)));
        }
        assert(crate::permissions::pattern_texts(r@) =~= permission_patterns_of(self@));
        r
    }

    /// The registration of `type_id`, if any.
    pub fn get(&self, type_id: &str) -> (r: Option<RegisteredAssetType>)
        requires
            self.well_formed(),
        ensures
            match r {
                Some(t) => exists|i: int| 0 <= i < self@.len() && self@[i] == t@ && t@.type_id == type_id@,
                None => index_of_type(self@, type_id@) is None,
            },
    {
        match self.find(type_id) {
            Some(i) => Some(self.entries[i].duplicate()),
            None => None,
        }
    }

    /// All registrations.
    pub fn all(&self) -> (r: Vec<RegisteredAssetType>)
        ensures
            views(r@) == self@,
    {
        let mut r: Vec<RegisteredAssetType> = Vec::new();
        for i in 0..self.entries.len()
            invariant
                r@.len() == i,
                forall|k: int| 0 <= k < i ==> #[trigger] r@[k]@ == self.entries@[k]@,
        {
            r.push(self.entries[i].duplicate());
        }
        assert(views(r@) =~= self@);
        r
    }
}

proof fn lemma_filter_distinct(s: Seq<AssetTypeView>, pred: spec_fn(AssetTypeView) -> bool, a: int, b: int)
    requires
        distinct_type_ids(s),
        0 <= a < s.filter(pred).len(),
        0 <= b < s.filter(pred).len(),
        a != b,
    ensures
        s.filter(pred)[a].type_id != s.filter(pred)[b].type_id,
    decreases s.len(),
{
    reveal_with_fuel(Seq::<_>::filter, 1);
    let f = s.filter(pred);
    let rest = s.drop_last();
    assert(distinct_type_ids(rest)) by {
        assert forall|i: int, j: int|
            0 <= i < rest.len() && 0 <= j < rest.len() && i != j implies #[trigger] rest[i].type_id
            != #[trigger] rest[j].type_id by {
            assert(rest[i] == s[i]);
            assert(rest[j] == s[j]);
        }
    }
    if pred(s.last()) {
        let fr = rest.filter(pred);
        assert(f == fr.push(s.last()));
        if a < fr.len() && b < fr.len() {
            lemma_filter_distinct(rest, pred, a, b);
        } else {
            let k = if a < fr.len() { a } else { b };
            assert(fr.contains(fr[k]));
            rest.lemma_filter_contains_rev(pred, fr[k]);
            let idx = choose|idx: int| 0 <= idx < rest.len() && rest[idx] == fr[k];
            assert(s[idx] == fr[k]);
            assert(s[s.len() - 1] == s.last());
        }
    } else {
        assert(f == rest.filter(pred));
        lemma_filter_distinct(rest, pred, a, b);
    }
}

/// Entries of plugins other than `plugin_id`, in their order.
pub open spec fn others_of(entries: Seq<AssetTypeView>, plugin_id: Seq<char>) -> Seq<AssetTypeView> {
    entries.filter(|e: AssetTypeView| e.plugin_id != plugin_id)
}

proof fn lemma_filter_update_unselected(
    s: Seq<AssetTypeView>,
    pred: spec_fn(AssetTypeView) -> bool,
    i: int,
    v: AssetTypeView,
)
    requires
        0 <= i < s.len(),
        !pred(s[i]),
        !pred(v),
    ensures
        s.update(i, v).filter(pred) == s.filter(pred),
{
    let a = s.take(i);
    let b = s.skip(i + 1);
    assert(s =~= a.push(s[i]) + b);
    assert(s.update(i, v) =~= a.push(v) + b);
    Seq::filter_distributes_over_add(a.push(s[i]), b, pred);
    Seq::filter_distributes_over_add(a.push(v), b, pred);
    a.lemma_filter_push(s[i], pred);
    a.lemma_filter_push(v, pred);
}

/// Registering the asset types of plugin `plugin_id` leaves the entries of
/// every other plugin as they were, in their order; so unregistering the
/// plugin afterwards gives the same table as unregistering it before, and
/// for a plugin that had no entries it gives back the table as it was.
pub proof fn law_register_leaves_other_plugins(
    entries: Seq<AssetTypeView>,
    plugin_id: Seq<char>,
    node_kind: Seq<char>,
    specs: Seq<PluginAssetSpec>,
)
    ensures
        others_of(register_all(entries, plugin_id, node_kind, specs), plugin_id) == others_of(
            entries,
            plugin_id,
        ),
        (forall|i: int| 0 <= i < entries.len() ==> (#[trigger] entries[i]).plugin_id != plugin_id)
            ==> others_of(register_all(entries, plugin_id, node_kind, specs), plugin_id) == entries,
    decreases specs.len(),
{
    let pred = |e: AssetTypeView| e.plugin_id != plugin_id;
    if specs.len() > 0 {
        law_register_leaves_other_plugins(entries, plugin_id, node_kind, specs.drop_last());
        let prev = register_all(entries, plugin_id, node_kind, specs.drop_last());
        let spec = specs.last();
        let reg = registration_of(plugin_id, node_kind, spec);
        if valid_type_id(spec.type_id@) && !(spec.system_dir is Some && has_path_traversal(
            spec.system_dir->0@,
        )) {
            match index_of_type(prev, spec.type_id@) {
                Some(i) => {
                    if prev[i].plugin_id == plugin_id {
                        lemma_filter_update_unselected(prev, pred, i, reg);
                    }
                },
                None => {
                    prev.lemma_filter_push(reg, pred);
                },
            }
        }
    }
    if forall|i: int| 0 <= i < entries.len() ==> (#[trigger] entries[i]).plugin_id != plugin_id {
        assert(entries.filter(pred) == entries) by {
            lemma_filter_all_selected(entries, pred);
        }
    }
}

proof fn lemma_filter_all_selected(s: Seq<AssetTypeView>, pred: spec_fn(AssetTypeView) -> bool)
    requires
        forall|i: int| 0 <= i < s.len() ==> pred(#[trigger] s[i]),
    ensures
        s.filter(pred) == s,
    decreases s.len(),
{
    reveal_with_fuel(Seq::<_>::filter, 1);
    if s.len() > 0 {
        lemma_filter_all_selected(s.drop_last(), pred);
        assert(pred(s.last()));
        assert(s.drop_last().push(s.last()) =~= s);
    }
}

// ---------------------------------------------------------------------------
// Upload file names
// ---------------------------------------------------------------------------

pub open spec fn safe_filename_char(c: char) -> char {
    if is_ascii_alnum(c) || c == '.' || c == '-' || c == '_' {
        c
    } else {
        '_'
    }
}

/// The sanitized form of an upload file name.
pub open spec fn sanitized(f: Seq<char>) -> Seq<char> {
    let s = Seq::new(f.len(), |i: int| safe_filename_char(f[i]));
    if s.len() == 0 || s == "."@ || s == ".."@ {
        "_invalid_"@
    } else {
        s
    }
}

/// A sanitized name is never empty, `.` or `..`, and holds only ASCII
/// letters, digits, `.`, `-` and `_`, so no path separator.
pub proof fn law_sanitized_is_safe(f: Seq<char>)
    ensures
        sanitized(f).len() > 0,
        sanitized(f) != "."@,
        sanitized(f) != ".."@,
        forall|i: int| 0 <= i < sanitized(f).len() ==> {
            let c = #[trigger] sanitized(f)[i];
            is_ascii_alnum(c) || c == '.' || c == '-' || c == '_'
        },
        !sanitized(f).contains('/'),
        !sanitized(f).contains('\\'),
{
    reveal_strlit("_invalid_");
    reveal_strlit(".");
    reveal_strlit("..");
    let r = sanitized(f);
    assert forall|i: int| 0 <= i < r.len() implies {
        let c = #[trigger] r[i];
        is_ascii_alnum(c) || c == '.' || c == '-' || c == '_'
    } by {}
    if r.contains('/') {
        let k = choose|k: int| 0 <= k < r.len() && r[k] == '/';
        assert(is_ascii_alnum(r[k]) || r[k] == '.' || r[k] == '-' || r[k] == '_');
    }
    if r.contains('\\') {
        let k = choose|k: int| 0 <= k < r.len() && r[k] == '\\';
        assert(is_ascii_alnum(r[k]) || r[k] == '.' || r[k] == '-' || r[k] == '_');
    }
}

/// Sanitizing a sanitized name changes nothing.
pub proof fn law_sanitize_idempotent(f: Seq<char>)
    ensures
        sanitized(sanitized(f)) == sanitized(f),
{
    law_sanitized_is_safe(f);
    let r = sanitized(f);
    let s = Seq::new(r.len(), |i: int| safe_filename_char(r[i]));
    assert(s =~= r);
}

/// Replaces every character other than ASCII letters, digits, `.`, `-`
/// and `_` with `_`; empty, `.` and `..` results become `_invalid_`.
pub fn sanitize_filename(filename: &str) -> (r: String)
    ensures
        r@ == sanitized(filename@),
{
    let f = chars_of(filename);
    let mut s: Vec<char> = Vec::new();
    for i in 0..f.len()
        invariant
            s@ == Seq::new(i as nat, |k: int| safe_filename_char(f@[k])),
    {
        let c = f[i];
        s.push(if is_ascii_alnum_char(c) || c == '.' || c == '-' || c == '_' { c } else { '_' });
        assert(s@ =~= Seq::new((i + 1) as nat, |k: int| safe_filename_char(f@[k])));
    }
    assert(s@ =~= Seq::new(filename@.len(), |k: int| safe_filename_char(filename@[k])));
    let dot = chars_of(".");
    let dotdot = chars_of("..");
    if s.len() == 0 || chars_equal(&s, &dot) || chars_equal(&s, &dotdot) {
        return "_invalid_".to_owned();
    }
    string_of(&s)
}

/// Errors of plugin asset operations.
#[derive(Debug)]
pub enum PluginAssetError {
    IoError(String),
    InvalidFilename(String),
    InvalidFormat(String),
    InvalidRequest(String),
    FileTooLarge(usize),
    FileExists(String),
    NotFound(String),
    Forbidden,
}

/// The text after the last `.` (`rsplit('.').next()`).
pub open spec fn after_last_dot(f: Seq<char>) -> Seq<char> {
    match last_index_of(f, '.') {
        Some(i) => f.skip(i + 1),
        None => f,
    }
}

pub open spec fn upload_name_refusal(f: Seq<char>) -> Option<Seq<char>> {
    if vstd::utf8::encode_utf8(f).len() > MAX_FILENAME_LENGTH {
        Some("Filename too long"@)
    } else if f.len() == 0 || f == "."@ {
        Some("Filename cannot be empty"@)
    } else if contains_seq(f, ".."@) || f.contains('/') || f.contains('\\') {
        Some("Invalid characters in filename"@)
    } else if !f.contains('.') {
        Some("File must have an extension"@)
    } else {
        None
    }
}

pub open spec fn extension_allowed(allowed: Seq<Seq<char>>, ext: Seq<char>) -> bool {
    exists|i: int| 0 <= i < allowed.len() && eq_ignore_ascii_case(#[trigger] allowed[i], ext)
}

/// The message refusing an extension that the type does not allow.
pub open spec fn unsupported_format_message(ext: Seq<char>, allowed: Seq<Seq<char>>) -> Seq<char> {
    "Unsupported format: "@ + ext + ". Allowed: "@ + join_with(allowed, ", "@)
}

/// Checks an upload file name against an asset type and returns its
/// lower-cased extension.
pub fn validate_filename(filename: &str, asset_type: &RegisteredAssetType) -> (r: Result<
    String,
    PluginAssetError,
>)
    ensures
        match upload_name_refusal(filename@) {
            Some(msg) => r matches Err(PluginAssetError::InvalidFilename(m)) && m@ == msg,
            None => {
                let ext = unicode_lower_of(after_last_dot(filename@));
                if extension_allowed(texts(asset_type.extensions@), ext) {
                    r matches Ok(e) && e@ == ext
                } else {
                    r matches Err(PluginAssetError::InvalidFormat(m)) && m@
                        == unsupported_format_message(ext, texts(asset_type.extensions@))
                }
            },
        },
        is_ascii_text(filename@) && upload_name_refusal(filename@) is None ==> ({
            let ext = ascii_lower(after_last_dot(filename@));
            if extension_allowed(texts(asset_type.extensions@), ext) {
                r matches Ok(e) && e@ == ext
            } else {
                r matches Err(PluginAssetError::InvalidFormat(m)) && m@
                    == unsupported_format_message(ext, texts(asset_type.extensions@))
            }
        }),
{
    let bytes = filename.as_bytes();
    if bytes.len() > MAX_FILENAME_LENGTH {
        return Err(PluginAssetError::InvalidFilename("Filename too long".to_owned()));
    }
    let f = chars_of(filename);
    let dot = chars_of(".");
    if f.len() == 0 || chars_equal(&f, &dot) {
        return Err(PluginAssetError::InvalidFilename("Filename cannot be empty".to_owned()));
    }
    let dotdot = chars_of("..");
    if contains(&f, &dotdot) || contains_char(&f, '/') || contains_char(&f, '\\') {
        return Err(PluginAssetError::InvalidFilename("Invalid characters in filename".to_owned()));
    }
    proof {
        lemma_last_index_in(f@, '.');
    }
    let raw = match rfind_char(&f, '.') {
        Some(i) => skip_chars(&f, i + 1),
        None => {
            proof {
                lemma_no_last_index(f@, '.');
            }
            return Err(PluginAssetError::InvalidFilename("File must have an extension".to_owned()));
        },
    };
    assert(raw@ == after_last_dot(filename@));
    let raw_text = string_of(&raw);
    proof {
        if is_ascii_text(filename@) {
            assert forall|i: int| 0 <= i < raw@.len() implies is_ascii_char(#[trigger] raw@[i]) by {
                let j = f@.len() - raw@.len() + i;
                assert(raw@[i] == f@[j]);
            }
        }
    }
    let extension = to_lowercase(raw_text.as_str());
    let e = chars_of(extension.as_str());
    let exts = &asset_type.extensions;
    let mut k: usize = 0;
    while k < exts.len()
        invariant
            k <= exts@.len(),
            e@ == extension@,
            extension@ == unicode_lower_of(after_last_dot(filename@)),
            is_ascii_text(filename@) ==> extension@ == ascii_lower(after_last_dot(filename@)),
            upload_name_refusal(filename@) is None,
            exts@ == asset_type.extensions@,
            forall|j: int| 0 <= j < k ==> !eq_ignore_ascii_case(#[trigger] texts(exts@)[j], e@),
        decreases exts.len() - k,
    {
        let allowed = chars_of(exts[k].as_str());
        if eq_ignore_case(&allowed, &e) {
            assert(texts(exts@)[k as int] == exts@[k as int]@);
            return Ok(extension);
        }
        k = k + 1;
    }
    let mut names: Vec<Vec<char>> = Vec::new();
    for j in 0..exts.len()
        invariant
            names@.len() == j,
            forall|m: int| 0 <= m < j ==> #[trigger] names@[m]@ == exts@[m]@,
    {
        names.push(chars_of(exts[j].as_str()));
    }
    let sep = chars_of(", ");
    let joined = join_chars(&names, &sep);
    assert(names@.map_values(|p: Vec<char>| p@) =~= texts(exts@));
    let mut m = chars_of("Unsupported format: ");
    extend_chars(&mut m, &e);
    extend_str(&mut m, ". Allowed: ");
    extend_chars(&mut m, &joined);
    Err(PluginAssetError::InvalidFormat(string_of(&m)))
}

proof fn lemma_no_last_index(s: Seq<char>, c: char)
    requires
        last_index_of(s, c) is None,
    ensures
        !s.contains(c),
    decreases s.len(),
{
    if s.len() > 0 {
        lemma_no_last_index(s.drop_last(), c);
        assert forall|i: int| 0 <= i < s.len() implies s[i] != c by {
            if i < s.len() - 1 {
                assert(s.drop_last()[i] == s[i]);
            }
        }
    }
}

proof fn lemma_last_index_in(s: Seq<char>, c: char)
    ensures
        last_index_of(s, c) matches Some(i) ==> 0 <= i < s.len() && s[i] == c,
    decreases s.len(),
{
    if s.len() > 0 {
        lemma_last_index_in(s.drop_last(), c);
    }
}

/// Refuses a canonical file path outside the canonical directory.
pub fn check_contained(canonical: &str, canonical_dir: &str) -> (r: Result<(), PluginAssetError>)
    ensures
        path_starts_with_of(canonical@, canonical_dir@) ==> r is Ok,
        !path_starts_with_of(canonical@, canonical_dir@) ==> r matches Err(PluginAssetError::Forbidden),
{
    if !path_starts_with(canonical, canonical_dir) {
        return Err(PluginAssetError::Forbidden);
    }
    Ok(())
}

pub open spec fn asset_error_message(e: &PluginAssetError) -> Seq<char> {
    match e {
        PluginAssetError::IoError(msg) => "IO error: "@ + msg@,
        PluginAssetError::InvalidFilename(msg) => "Invalid filename: "@ + msg@,
        PluginAssetError::InvalidFormat(msg) => "Invalid format: "@ + msg@,
        PluginAssetError::InvalidRequest(msg) => "Invalid request: "@ + msg@,
        PluginAssetError::FileTooLarge(max) => "File too large (max: "@ + decimal(*max as nat)
            + " bytes)"@,
        PluginAssetError::FileExists(f) => "File exists: "@ + f@,
        PluginAssetError::NotFound(id) => "Not found: "@ + id@,
        PluginAssetError::Forbidden => "Forbidden"@,
    }
}

pub open spec fn asset_error_response(e: &PluginAssetError) -> (u16, Seq<char>) {
    match e {
        PluginAssetError::IoError(msg) => (500u16, msg@),
        PluginAssetError::InvalidFilename(msg) => (400u16, msg@),
        PluginAssetError::InvalidFormat(msg) => (400u16, msg@),
        PluginAssetError::InvalidRequest(msg) => (400u16, msg@),
        PluginAssetError::FileTooLarge(max) => (
            413u16,
            "File too large. Maximum size: "@ + decimal(*max as nat) + " bytes"@,
        ),
        PluginAssetError::FileExists(f) => (409u16, "File already exists: "@ + f@),
        PluginAssetError::NotFound(id) => (404u16, "Asset not found: "@ + id@),
        PluginAssetError::Forbidden => (403u16, "Insufficient permissions"@),
    }
}

impl PluginAssetError {
    /// The error's message.
    pub fn to_string(&self) -> (r: String)
        ensures
            r@ == asset_error_message(self),
    {
        let mut m: Vec<char> = Vec::new();
        match self {
            PluginAssetError::IoError(msg) => {
                extend_str(&mut m, "IO error: ");
                extend_str(&mut m, msg.as_str());
            },
            PluginAssetError::InvalidFilename(msg) => {
                extend_str(&mut m, "Invalid filename: ");
                extend_str(&mut m, msg.as_str());
            },
            PluginAssetError::InvalidFormat(msg) => {
                extend_str(&mut m, "Invalid format: ");
                extend_str(&mut m, msg.as_str());
            },
            PluginAssetError::InvalidRequest(msg) => {
                extend_str(&mut m, "Invalid request: ");
                extend_str(&mut m, msg.as_str());
            },
            PluginAssetError::FileTooLarge(max) => {
                extend_str(&mut m, "File too large (max: ");
                let d = decimal_chars(*max as u64);
                extend_chars(&mut m, &d);
                extend_str(&mut m, " bytes)");
            },
            PluginAssetError::FileExists(f) => {
                extend_str(&mut m, "File exists: ");
                extend_str(&mut m, f.as_str());
            },
            PluginAssetError::NotFound(id) => {
                extend_str(&mut m, "Not found: ");
                extend_str(&mut m, id.as_str());
            },
            PluginAssetError::Forbidden => {
                extend_str(&mut m, "Forbidden");
            },
        }
        string_of(&m)
    }

    /// The HTTP status and body that the error is answered with.
    pub fn response(&self) -> (r: (u16, String))
        ensures
            r.0 == asset_error_response(self).0,
            r.1@ == asset_error_response(self).1,
    {
        match self {
            PluginAssetError::IoError(msg) => (500, copy_string(msg)),
            PluginAssetError::InvalidFilename(msg) => (400, copy_string(msg)),
            PluginAssetError::InvalidFormat(msg) => (400, copy_string(msg)),
            PluginAssetError::InvalidRequest(msg) => (400, copy_string(msg)),
            PluginAssetError::FileTooLarge(max) => {
                let mut m = chars_of("File too large. Maximum size: ");
                let d = decimal_chars(*max as u64);
                extend_chars(&mut m, &d);
                extend_str(&mut m, " bytes");
                (413, string_of(&m))
            },
            PluginAssetError::FileExists(f) => {
                let mut m = chars_of("File already exists: ");
                extend_str(&mut m, f.as_str());
                (409, string_of(&m))
            },
            PluginAssetError::NotFound(id) => {
                let mut m = chars_of("Asset not found: ");
                extend_str(&mut m, id.as_str());
                (404, string_of(&m))
            },
            PluginAssetError::Forbidden => (403, "Insufficient permissions".to_owned()),
        }
    }
}

} // verus!
