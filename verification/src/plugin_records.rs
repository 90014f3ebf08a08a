//! Records of the plugins that are active: where each record is stored and
//! the namespaced node kind under which the plugin's node is registered.
use vstd::prelude::*;

use crate::paths::{join_text, law_parent_of_join, parent_text, path_join, path_join_of, plain_dir, plain_name};
use crate::plugin_paths::{component_refusal, path_error_message, refusal_text, validate_path_component, PluginPathError};
use crate::text::{extend_str, string_of};

verus! {

/// How a plugin is built: a WebAssembly component or a native library.
#[derive(Debug, Clone, Copy, PartialEq, Eq, Structural)]
pub enum PluginKind {
    Wasm,
    Native,
}

/// What is stored for a plugin that is active.
#[derive(Debug, Clone)]
pub struct ActivePluginRecord {
    pub plugin_id: String,
    pub version: String,
    pub node_kind: String,
    pub kind: PluginKind,
    pub entrypoint: String,
    pub installed_at_ms: u128,
    /// Accelerator variant of the activated bundle (`cpu`, `cuda`, ...);
    /// empty on records written before bundles were keyed by accelerator.
    pub accelerator: String,
}

/// The directory that holds the records of active plugins.
pub open spec fn active_dir_of(plugin_dir: Seq<char>) -> Seq<char> {
    join_text(plugin_dir, "active"@)
}

/// The directory that holds the records of active plugins.
pub fn active_dir(plugin_dir: &str) -> (r: String)
    ensures
        r@ == active_dir_of(plugin_dir@),
{
    path_join(plugin_dir, "active")
}

/// The file name of a plugin's record.
pub open spec fn record_file_name(plugin_id: Seq<char>) -> Seq<char> {
    plugin_id + ".json"@
}

/// Where the record of `plugin_id` is stored; refused unless the id is a
/// single safe path component.
pub fn record_path(plugin_dir: &str, plugin_id: &str) -> (r: Result<String, PluginPathError>)
    ensures
        component_refusal(plugin_id@) is None ==> (r matches Ok(p) && p@ == join_text(
            active_dir_of(plugin_dir@),
            record_file_name(plugin_id@),
        )),
        component_refusal(plugin_id@) matches Some(c) ==> (r matches Err(e) && path_error_message(e)
            == refusal_text("plugin id"@, c)),
{
    match validate_path_component("plugin id", plugin_id) {
        Err(e) => Err(e),
        Ok(()) => {
            let dir = active_dir(plugin_dir);
            let mut name: Vec<char> = Vec::new();
            extend_str(&mut name, plugin_id);
            extend_str(&mut name, ".json");
            let file = string_of(&name);
            Ok(path_join(dir.as_str(), file.as_str()))
        },
    }
}

/// The record of a plugin whose id is accepted and holds no `/` lies
/// directly in the active directory: its parent is that directory (for a
/// plugin directory written plainly).
pub proof fn law_record_path_parent(plugin_dir: Seq<char>, plugin_id: Seq<char>)
    requires
        plain_dir(plugin_dir),
        component_refusal(plugin_id) is None,
        !plugin_id.contains('/'),
    ensures
        parent_text(join_text(active_dir_of(plugin_dir), record_file_name(plugin_id))) == Some(
            active_dir_of(plugin_dir),
        ),
{
    reveal_strlit("active");
    reveal_strlit(".json");
    reveal_strlit(".");
    reveal_strlit("..");
    assert(plain_name("active"@));
    law_parent_of_join(plugin_dir, "active"@);
    let f = record_file_name(plugin_id);
    assert(f.len() == plugin_id.len() + 5);
    assert(plain_name(f)) by {
        if f.contains('/') {
            let k = choose|k: int| 0 <= k < f.len() && f[k] == '/';
            if k < plugin_id.len() {
                assert(plugin_id[k] == '/');
            }
        }
        assert(f.len() > 2);
    }
    law_parent_of_join(active_dir_of(plugin_dir), f);
}

/// The node kind under which an active plugin's node is registered.
pub open spec fn namespaced_kind_of(kind: PluginKind, node_kind: Seq<char>) -> Seq<char> {
    match kind {
        PluginKind::Wasm => "plugin::wasm::"@ + node_kind,
        PluginKind::Native => "plugin::native::"@ + node_kind,
    }
}

/// The node kind under which an active plugin's node is registered.
pub fn namespaced_kind(record: &ActivePluginRecord) -> (r: String)
    ensures
        r@ == namespaced_kind_of(record.kind, record.node_kind@),
{
    let mut out: Vec<char> = Vec::new();
    match record.kind {
        PluginKind::Wasm => extend_str(&mut out, "plugin::wasm::"),
        PluginKind::Native => extend_str(&mut out, "plugin::native::"),
    }
    extend_str(&mut out, record.node_kind.as_str());
    string_of(&out)
}

} // verus!
