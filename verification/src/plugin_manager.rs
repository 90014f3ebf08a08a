//! The bookkeeping of the plugin manager: the table of loaded plugins by
//! registered kind, the conflicts that refuse a load, where an uploaded
//! plugin file is placed, and which files of the plugin directories are
//! plugin libraries. Loading the libraries themselves is the server's.
use vstd::prelude::*;

use crate::paths::{path_extension, path_extension_of, path_file_name, path_file_name_of, file_name_text, path_file_stem, path_file_stem_of, path_is_single_normal, path_is_single_normal_of, single_normal_text, path_join, path_join_of, join_text, path_parent, path_parent_of, parent_text, path_starts_with, path_starts_with_of, opt_chars};
use crate::plugin_records::{namespaced_kind_of, ActivePluginRecord, PluginKind};
use crate::samples::utf8_len;
use crate::text::{chars_of, contains, contains_seq, ends_with, extend_chars, extend_str, has_prefix, has_suffix, skip_chars, starts_with, str_equal, string_of, trim, trim_chars};

verus! {

/// How a plugin is built.
#[derive(Debug, Clone, Copy, PartialEq, Eq, Structural)]
pub enum PluginType {
    Wasm,
    Native,
}

/// Summary of a loaded plugin, as the HTTP API shows it.
#[derive(Debug, Clone)]
pub struct PluginSummary {
    pub kind: String,
    pub original_kind: String,
    pub file_name: String,
    pub categories: Vec<String>,
    pub loaded_at_ms: u128,
    pub plugin_type: PluginType,
    pub version: Option<String>,
}

/// A loaded plugin, under the kind it registered.
#[derive(Debug)]
pub struct LoadedPlugin {
    pub kind: String,
    pub original_kind: String,
    pub file_path: String,
    pub categories: Vec<String>,
    pub loaded_at_ms: u128,
    pub plugin_type: PluginType,
    pub version: Option<String>,
}

/// What a loaded plugin is, as contracts see it.
pub struct LoadedPluginView {
    pub kind: Seq<char>,
    pub original_kind: Seq<char>,
    pub file_path: Seq<char>,
    pub categories: Seq<Seq<char>>,
    pub loaded_at_ms: u128,
    pub plugin_type: PluginType,
    pub version: Option<Seq<char>>,
}

pub open spec fn texts_of(v: Seq<String>) -> Seq<Seq<char>> {
    v.map_values(|s: String| s@)
}

impl View for LoadedPlugin {
    type V = LoadedPluginView;

    open spec fn view(&self) -> LoadedPluginView {
        LoadedPluginView {
            kind: self.kind@,
            original_kind: self.original_kind@,
            file_path: self.file_path@,
            categories: texts_of(self.categories@),
            loaded_at_ms: self.loaded_at_ms,
            plugin_type: self.plugin_type,
            version: opt_chars(self.version),
        }
    }
}

pub open spec fn plugin_views(v: Seq<LoadedPlugin>) -> Seq<LoadedPluginView> {
    v.map_values(|p: LoadedPlugin| p@)
}

pub open spec fn kind_index(entries: Seq<LoadedPluginView>, kind: Seq<char>) -> Option<int> {
    if exists|i: int| 0 <= i < entries.len() && entries[i].kind == kind {
        Some(choose|i: int| 0 <= i < entries.len() && entries[i].kind == kind)
    } else {
        None
    }
}

pub open spec fn kinds_distinct(entries: Seq<LoadedPluginView>) -> bool {
    forall|i: int, j: int|
        0 <= i < entries.len() && 0 <= j < entries.len() && i != j ==> #[trigger] entries[i].kind
            != #[trigger] entries[j].kind
}

/// The summary of a loaded plugin: the file's name, or `unknown` when its
/// path has none.
pub open spec fn summary_file_name(file_path: Seq<char>) -> Seq<char> {
    match file_name_text(file_path) {
        Some(n) => n,
        None => "unknown"@,
    }
}

pub const ERR_ALREADY_LOADED: &'static str = "already loaded";
pub const ERR_ALREADY_REGISTERED: &'static str = "already registered";

fn copy_texts(v: &Vec<String>) -> (r: Vec<String>)
    ensures
        texts_of(r@) == texts_of(v@),
{
    let mut r: Vec<String> = Vec::new();
    for i in 0..v.len()
        invariant
            texts_of(r@) == texts_of(v@.take(i as int)),
    {
        let ghost before = texts_of(r@);
        r.push(v[i].clone());
        assert(texts_of(r@) =~= before.push(v@[i as int]@));
        assert(texts_of(v@.take(i + 1)) =~= texts_of(v@.take(i as int)).push(v@[i as int]@));
    }
    assert(v@.take(v.len() as int) =~= v@);
    r
}

fn copy_opt(o: &Option<String>) -> (r: Option<String>)
    ensures
        opt_chars(r) == opt_chars(*o),
{
    match o {
        Some(s) => Some(s.clone()),
        None => None,
    }
}

impl LoadedPlugin {
    /// The plugin's summary.
    pub fn summary(&self) -> (r: PluginSummary)
        ensures
            r.kind@ == self.kind@,
            r.original_kind@ == self.original_kind@,
            r.file_name@ == summary_file_name(self.file_path@),
            texts_of(r.categories@) == texts_of(self.categories@),
            r.loaded_at_ms == self.loaded_at_ms,
            r.plugin_type == self.plugin_type,
            opt_chars(r.version) == opt_chars(self.version),
    {
        let file_name = match path_file_name(self.file_path.as_str()) {
            Some(n) => n,
            None => "unknown".to_owned(),
        };
        PluginSummary {
            kind: self.kind.clone(),
            original_kind: self.original_kind.clone(),
            file_name,
            categories: copy_texts(&self.categories),
            loaded_at_ms: self.loaded_at_ms,
            plugin_type: self.plugin_type,
            version: copy_opt(&self.version),
        }
    }
}

/// The loaded plugins, each kind at most once.
pub struct LoadedPlugins {
    entries: Vec<LoadedPlugin>,
}

impl View for LoadedPlugins {
    type V = Seq<LoadedPluginView>;

    closed spec fn view(&self) -> Seq<LoadedPluginView> {
        plugin_views(self.entries@)
    }
}

impl LoadedPlugins {
    /// No two loaded plugins share a kind.
    pub open spec fn well_formed(&self) -> bool {
        kinds_distinct(self@)
    }

    /// No plugin loaded.
    pub fn new() -> (r: Self)
        ensures
            r.well_formed(),
            r@ == Seq::<LoadedPluginView>::empty(),
    {
        let r = LoadedPlugins { entries: Vec::new() };
        assert(r@ =~= Seq::<LoadedPluginView>::empty());
        r
    }

    fn find(&self, kind: &str) -> (r: Option<usize>)
        requires
            self.well_formed(),
        ensures
            match r {
                Some(i) => i < self@.len() && kind_index(self@, kind@) == Some(i as int) && self@[i as int].kind == kind@,
                None => kind_index(self@, kind@) is None,
            },
    {
        for i in 0..self.entries.len()
            invariant
                self.well_formed(),
                forall|j: int| 0 <= j < i ==> (#[trigger] self@[j]).kind != kind@,
        {
            if str_equal(self.entries[i].kind.as_str(), kind) {
                proof {
                    assert(self@[i as int].kind == kind@);
                    let k = choose|k: int| 0 <= k < self@.len() && self@[k].kind == kind@;
                    assert(self@[k].kind == kind@);
                    assert(k == i as int);
                }
                return Some(i);
            }
        }
        None
    }

    /// Whether a plugin is loaded under `kind`.
    pub fn is_plugin_loaded(&self, kind: &str) -> (r: bool)
        requires
            self.well_formed(),
        ensures
            r == kind_index(self@, kind@) is Some,
    {
        self.find(kind).is_some()
    }

    /// Refuses a load of a plugin registering `kind` (for node
    /// `original_kind`) when a plugin is loaded under that kind, or when the
    /// engine already has a node kind of that name (`registered`).
    pub fn check_kind_conflict(&self, kind: &str, original_kind: &str, registered: bool) -> (r: Result<(), String>)
        requires
            self.well_formed(),
        ensures
            kind_index(self@, kind@) is Some ==> (r matches Err(m) && m@ == "A plugin providing node '"@
                + original_kind@ + "' (registered as '"@ + kind@ + "') is already loaded"@),
            kind_index(self@, kind@) is None && registered ==> (r matches Err(m) && m@ == "Node kind '"@ + kind@
                + "' is already registered; refusing to overwrite it with a plugin"@),
            kind_index(self@, kind@) is None && !registered ==> r is Ok,
    {
        if self.find(kind).is_some() {
            let mut m = chars_of("A plugin providing node '");
            extend_str(&mut m, original_kind);
            extend_str(&mut m, "' (registered as '");
            extend_str(&mut m, kind);
            extend_str(&mut m, "') is already loaded");
            return Err(string_of(&m));
        }
        if registered {
            let mut m = chars_of("Node kind '");
            extend_str(&mut m, kind);
            extend_str(&mut m, "' is already registered; refusing to overwrite it with a plugin");
            return Err(string_of(&m));
        }
        Ok(())
    }

    /// Records a plugin that loaded, under a kind not yet loaded.
    pub fn insert(&mut self, plugin: LoadedPlugin)
        requires
            old(self).well_formed(),
            kind_index(old(self)@, plugin.kind@) is None,
        ensures
            final(self).well_formed(),
            final(self)@ == old(self)@.push(plugin@),
    {
        let ghost before = self@;
        let ghost pv = plugin@;
        self.entries.push(plugin);
        assert(self@ =~= before.push(pv));
        assert forall|i: int, j: int|
            0 <= i < self@.len() && 0 <= j < self@.len() && i != j implies #[trigger] self@[i].kind
            != #[trigger] self@[j].kind by {
            if i < before.len() && j < before.len() {
                assert(self@[i] == before[i] && self@[j] == before[j]);
            } else if i < before.len() {
                assert(self@[i] == before[i]);
            } else {
                assert(self@[j] == before[j]);
            }
        }
    }

    /// Unloads the plugin registered as `kind`, giving back its record.
    pub fn unload(&mut self, kind: &str) -> (r: Result<LoadedPlugin, String>)
        requires
            old(self).well_formed(),
        ensures
            final(self).well_formed(),
            kind_index(final(self)@, kind@) is None,
            match kind_index(old(self)@, kind@) {
                Some(i) => (r matches Ok(p) && p@ == old(self)@[i]) && final(self)@ == old(self)@.remove(i),
                None => (r matches Err(m) && m@ == "Plugin '"@ + kind@ + "' is not currently loaded"@)
                    && final(self)@ == old(self)@,
            },
    {
        match self.find(kind) {
            None => {
                let mut m = chars_of("Plugin '");
                extend_str(&mut m, kind);
                extend_str(&mut m, "' is not currently loaded");
                Err(string_of(&m))
            },
            Some(i) => {
                let ghost before = self@;
                let p = self.entries.remove(i);
                assert(self@ =~= before.remove(i as int));
                assert forall|a: int, b: int|
                    0 <= a < self@.len() && 0 <= b < self@.len() && a != b implies #[trigger] self@[a].kind
                    != #[trigger] self@[b].kind by {
                    let a0 = if a < i { a } else { a + 1 };
                    let b0 = if b < i { b } else { b + 1 };
                    assert(self@[a] == before[a0] && self@[b] == before[b0]);
                }
                assert forall|a: int| 0 <= a < self@.len() implies #[trigger] self@[a].kind != kind@ by {
                    let a0 = if a < i { a } else { a + 1 };
                    assert(self@[a] == before[a0]);
                    assert(before[i as int].kind == kind@);
                }
                Ok(p)
            },
        }
    }

    /// Records the version of the plugin registered as `kind`, if loaded.
    pub fn set_version(&mut self, kind: &str, version: &str)
        requires
            old(self).well_formed(),
        ensures
            final(self).well_formed(),
            match kind_index(old(self)@, kind@) {
                Some(i) => final(self)@ == old(self)@.update(
                    i,
                    LoadedPluginView { version: Some(version@), ..old(self)@[i] },
                ),
                None => final(self)@ == old(self)@,
            },
    {
        match self.find(kind) {
            None => {},
            Some(i) => {
                let ghost before = self@;
                let mut p = self.entries.remove(i);
                p.version = Some(version.to_owned());
                self.entries.insert(i, p);
                assert(self@ =~= before.update(i as int, LoadedPluginView { version: Some(version@), ..before[i as int] }));
                assert forall|a: int, b: int|
                    0 <= a < self@.len() && 0 <= b < self@.len() && a != b implies #[trigger] self@[a].kind
                    != #[trigger] self@[b].kind by {
                    assert(self@[a].kind == before[a].kind && self@[b].kind == before[b].kind);
                }
            },
        }
    }

    /// The summaries of the loaded plugins.
    pub fn list_plugins(&self) -> (r: Vec<PluginSummary>)
        ensures
            r@.len() == self@.len(),
            forall|i: int|
                0 <= i < r@.len() ==> (#[trigger] r@[i]).kind@ == self@[i].kind && r@[i].file_name@ == summary_file_name(
                    self@[i].file_path,
                ) && r@[i].plugin_type == self@[i].plugin_type && opt_chars(r@[i].version) == self@[i].version
                    && r@[i].loaded_at_ms == self@[i].loaded_at_ms && r@[i].original_kind@ == self@[i].original_kind
                    && texts_of(r@[i].categories@) == self@[i].categories,
    {
        let mut r: Vec<PluginSummary> = Vec::new();
        for i in 0..self.entries.len()
            invariant
                r@.len() == i,
                forall|k: int|
                    0 <= k < i ==> (#[trigger] r@[k]).kind@ == self@[k].kind && r@[k].file_name@ == summary_file_name(
                        self@[k].file_path,
                    ) && r@[k].plugin_type == self@[k].plugin_type && opt_chars(r@[k].version) == self@[k].version
                        && r@[k].loaded_at_ms == self@[k].loaded_at_ms && r@[k].original_kind@ == self@[k].original_kind
                        && texts_of(r@[k].categories@) == self@[k].categories,
        {
            r.push(self.entries[i].summary());
        }
        r
    }

    /// The number of loaded plugins of a type.
    pub fn count_of_type(&self, t: PluginType) -> (r: usize)
        ensures
            r == self@.filter(|p: LoadedPluginView| p.plugin_type == t).len(),
    {
        let ghost pred = |p: LoadedPluginView| p.plugin_type == t;
        let mut n: usize = 0;
        for i in 0..self.entries.len()
            invariant
                pred == (|p: LoadedPluginView| p.plugin_type == t),
                n == self@.take(i as int).filter(pred).len(),
                n <= i,
        {
            reveal_with_fuel(Seq::<_>::filter, 1);
            assert(self@.take(i + 1).drop_last() =~= self@.take(i as int));
            assert(self@.take(i + 1).last() == self@[i as int]);
            if self.entries[i].plugin_type == t {
                n = n + 1;
            }
        }
        assert(self@.take(self.entries.len() as int) =~= self@);
        n
    }
}

/// Unloading the kind of a plugin that was just inserted under a free kind
/// hands that plugin back and leaves the table as it was before the insert.
pub proof fn law_unload_undoes_insert(table: Seq<LoadedPluginView>, plugin: LoadedPluginView)
    requires
        kinds_distinct(table),
        kind_index(table, plugin.kind) is None,
    ensures
        kinds_distinct(table.push(plugin)),
        kind_index(table.push(plugin), plugin.kind) == Some(table.len() as int),
        table.push(plugin)[table.len() as int] == plugin,
        table.push(plugin).remove(table.len() as int) == table,
{
    let t2 = table.push(plugin);
    assert(t2[table.len() as int].kind == plugin.kind);
    let k = choose|k: int| 0 <= k < t2.len() && t2[k].kind == plugin.kind;
    if k < table.len() {
        assert(t2[k] == table[k]);
    }
    assert forall|i: int, j: int|
        0 <= i < t2.len() && 0 <= j < t2.len() && i != j implies #[trigger] t2[i].kind != #[trigger] t2[j].kind by {
        if i < table.len() {
            assert(t2[i] == table[i]);
        }
        if j < table.len() {
            assert(t2[j] == table[j]);
        }
    }
    assert(t2.remove(table.len() as int) =~= table);
}

// ---------------------------------------------------------------------------
// Plugin files
// ---------------------------------------------------------------------------

/// Longest accepted plugin file name, in bytes.
pub const MAX_PLUGIN_FILENAME_LEN: usize = 255;

/// Where an uploaded plugin file goes: its path and type, and for a native
/// library the directory of its bundle (created by the server).
#[derive(Debug, Clone)]
pub struct UploadTarget {
    pub path: String,
    pub plugin_type: PluginType,
    pub bundle_dir: Option<String>,
}

pub open spec fn is_native_extension(e: Seq<char>) -> bool {
    e == "so"@ || e == "dylib"@ || e == "dll"@
}

/// The directory of a native library's bundle: the stem without a `lib`
/// prefix (`libgain.so` is in `gain/`), or the whole name when that is
/// empty.
pub open spec fn bundle_name(name: Seq<char>) -> Seq<char> {
    match path_file_stem_of(name) {
        Some(s) => {
            let t = if has_prefix(s, "lib"@) {
                s.skip("lib"@.len() as int)
            } else {
                s
            };
            if t.len() > 0 {
                t
            } else {
                name
            }
        },
        None => name,
    }
}

/// Where an uploaded plugin file named `file_name` goes, or why it is
/// refused.
pub open spec fn upload_target(wasm_dir: Seq<char>, native_dir: Seq<char>, file_name: Seq<char>) -> Result<
    (Seq<char>, PluginType, Option<Seq<char>>),
    Seq<char>,
> {
    let n = trim(file_name);
    if n.len() == 0 {
        Err("Plugin file name must not be empty"@)
    } else if utf8_len(n) > MAX_PLUGIN_FILENAME_LEN {
        Err("Plugin file name is too long (max 255 characters)"@)
    } else if n[0] == '/' || !single_normal_text(n) || contains_seq(n, ".."@) {
        Err("Plugin file name must be a plain file name (no paths or '..' segments)"@)
    } else {
        match path_extension_of(n) {
            Some(e) => if e == "wasm"@ {
                Ok((join_text(wasm_dir, n), PluginType::Wasm, None))
            } else if is_native_extension(e) {
                let stem = bundle_name(n);
                if stem == "."@ || stem == ".."@ {
                    Err("Cannot derive a valid plugin directory name from '"@ + n + "'"@)
                } else {
                    let sub = join_text(native_dir, stem);
                    Ok((join_text(sub, n), PluginType::Native, Some(sub)))
                }
            } else {
                Err(
                    "Plugin file must have a valid extension (.wasm for WASM plugins, .so/.dylib/.dll for native plugins)"@,
                )
            },
            None => Err(
                "Plugin file must have a valid extension (.wasm for WASM plugins, .so/.dylib/.dll for native plugins)"@,
            ),
        }
    }
}

/// Where an uploaded plugin file goes, or why its name is refused: a plain
/// file name of at most 255 bytes with a plugin extension.
pub fn validate_plugin_upload_target(wasm_dir: &str, native_dir: &str, file_name: &str) -> (r: Result<UploadTarget, String>)
    ensures
        match upload_target(wasm_dir@, native_dir@, file_name@) {
            Ok((p, t, b)) => r matches Ok(u) && u.path@ == p && u.plugin_type == t && opt_chars(u.bundle_dir) == b,
            Err(m) => r matches Err(e) && e@ == m,
        },
{
    let v = chars_of(file_name);
    let t = trim_chars(&v);
    if t.len() == 0 {
        return Err("Plugin file name must not be empty".to_owned());
    }
    let name = string_of(&t);
    if name.as_str().as_bytes().len() > MAX_PLUGIN_FILENAME_LEN {
        return Err("Plugin file name is too long (max 255 characters)".to_owned());
    }
    let dotdot = chars_of("..");
    if t[0] == '/' || !path_is_single_normal(name.as_str()) || contains(&t, &dotdot) {
        return Err("Plugin file name must be a plain file name (no paths or '..' segments)".to_owned());
    }
    let bad_ext = "Plugin file must have a valid extension (.wasm for WASM plugins, .so/.dylib/.dll for native plugins)";
    match path_extension(name.as_str()) {
        None => Err(bad_ext.to_owned()),
        Some(e) => {
            if str_equal(e.as_str(), "wasm") {
                Ok(UploadTarget { path: path_join(wasm_dir, name.as_str()), plugin_type: PluginType::Wasm, bundle_dir: None })
            } else if str_equal(e.as_str(), "so") || str_equal(e.as_str(), "dylib") || str_equal(e.as_str(), "dll") {
                let stem = bundle_dir_name(&name);
                if str_equal(stem.as_str(), ".") || str_equal(stem.as_str(), "..") {
                    let mut m = chars_of("Cannot derive a valid plugin directory name from '");
                    extend_chars(&mut m, &t);
                    extend_str(&mut m, "'");
                    return Err(string_of(&m));
                }
                let sub = path_join(native_dir, stem.as_str());
                let path = path_join(sub.as_str(), name.as_str());
                Ok(UploadTarget { path, plugin_type: PluginType::Native, bundle_dir: Some(sub) })
            } else {
                Err(bad_ext.to_owned())
            }
        },
    }
}

fn bundle_dir_name(name: &String) -> (r: String)
    ensures
        r@ == bundle_name(name@),
{
    match path_file_stem(name.as_str()) {
        None => name.clone(),
        Some(s) => {
            let sv = chars_of(s.as_str());
            let lib = chars_of("lib");
            let t = if starts_with(&sv, &lib) {
                skip_chars(&sv, lib.len())
            } else {
                sv
            };
            if t.len() > 0 {
                string_of(&t)
            } else {
                name.clone()
            }
        },
    }
}

/// Whether a file of the native directory is a plugin library: a `.so`,
/// `.dylib` or `.dll` file, but not a dependency listing (`.d`).
pub open spec fn is_native_library(path: Seq<char>) -> bool {
    &&& path_extension_of(path) matches Some(e) && is_native_extension(e)
    &&& !has_suffix(path, ".d"@)
}

/// Whether a file is a plugin library.
pub fn is_native_lib(path: &str) -> (r: bool)
    ensures
        r == is_native_library(path@),
{
    let native = match path_extension(path) {
        Some(e) => str_equal(e.as_str(), "so") || str_equal(e.as_str(), "dylib") || str_equal(e.as_str(), "dll"),
        None => false,
    };
    let p = chars_of(path);
    let d = chars_of(".d");
    native && !ends_with(&p, &d)
}

/// Whether a WebAssembly plugin file is loaded from the WebAssembly
/// directory (`.wasm`).
pub fn is_wasm_file(path: &str) -> (r: bool)
    ensures
        r == (path_extension_of(path@) == Some("wasm"@)),
{
    match path_extension(path) {
        Some(e) => str_equal(e.as_str(), "wasm"),
        None => false,
    }
}

/// The directory to remove after a plugin file was deleted, if it may be
/// empty now: the file's parent, when it is a bundle directory strictly
/// inside the native directory.
pub fn bundle_dir_to_clean(native_dir: &str, file_path: &str) -> (r: Option<String>)
    ensures
        match parent_text(file_path@) {
            Some(p) => if p != native_dir@ && path_starts_with_of(p, native_dir@) {
                r matches Some(q) && q@ == p
            } else {
                r is None
            },
            None => r is None,
        },
{
    match path_parent(file_path) {
        None => None,
        Some(p) => {
            if !str_equal(p.as_str(), native_dir) && path_starts_with(p.as_str(), native_dir) {
                Some(p)
            } else {
                None
            }
        },
    }
}

/// Whether a failed load of a directory bundle is the expected skip of a
/// kind already provided by a higher-priority source.
pub fn is_duplicate_kind_error(message: &str) -> (r: bool)
    ensures
        r == (contains_seq(message@, "already loaded"@) || contains_seq(message@, "already registered"@)),
{
    let m = chars_of(message);
    let a = chars_of(ERR_ALREADY_LOADED);
    let b = chars_of(ERR_ALREADY_REGISTERED);
    contains(&m, &a) || contains(&m, &b)
}

/// The type of plugin an active record loads.
pub fn record_plugin_type(kind: PluginKind) -> (r: PluginType)
    ensures
        kind == PluginKind::Wasm ==> r == PluginType::Wasm,
        kind == PluginKind::Native ==> r == PluginType::Native,
{
    match kind {
        PluginKind::Wasm => PluginType::Wasm,
        PluginKind::Native => PluginType::Native,
    }
}

/// Whether a plugin loaded from an active record registered the kind the
/// record names; a mismatch is unloaded again.
pub fn loaded_kind_matches_record(record: &ActivePluginRecord, loaded_kind: &str) -> (r: bool)
    ensures
        r == (namespaced_kind_of(record.kind, record.node_kind@) == loaded_kind@),
{
    let expected = crate::plugin_records::namespaced_kind(record);
    str_equal(expected.as_str(), loaded_kind)
}

} // verus!
