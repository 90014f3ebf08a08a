//! The rules of the plugin endpoints: the configuration and permission
//! gates, the fields of a plugin upload, the kinds an upload may declare and
//! load, the marketplace lookups of a plugin and its version, and where an
//! installed plugin's files live.
use vstd::prelude::*;

use crate::paths::{path_extension, path_extension_of, path_join, path_join_of, join_text};
use crate::permissions::{allowlist_admits, texts, Permissions};
use crate::plugin_paths::{component_refusal, path_error_message, refusal_text, validate_path_component, PluginPathError};
use crate::plugin_records::{namespaced_kind, namespaced_kind_of, ActivePluginRecord};
use crate::session_rules::{refusal_is, HttpRefusal, PluginHttpError};
use crate::text::{chars_of, decimal, decimal_chars, extend_chars, extend_str, has_prefix, starts_with, str_equal, string_of, trim, trim_chars};

verus! {

/// Refuses a request unless the feature is enabled by configuration and
/// the caller holds the permission.
pub fn check_gate(enabled: bool, disabled: &str, granted: bool, denied: &str) -> (r: Result<(), PluginHttpError>)
    ensures
        !enabled ==> (r matches Err(PluginHttpError::Forbidden(m)) && m@ == disabled@),
        enabled && !granted ==> (r matches Err(PluginHttpError::Forbidden(m)) && m@ == denied@),
        enabled && granted ==> r is Ok,
{
    if !enabled {
        return Err(PluginHttpError::Forbidden(disabled.to_owned()));
    }
    if !granted {
        return Err(PluginHttpError::Forbidden(denied.to_owned()));
    }
    Ok(())
}

pub const UPLOADS_DISABLED: &'static str =
    "Plugin uploads are disabled by configuration. Set [plugins].allow_http_management = true to enable.";
pub const UPLOADS_DENIED: &'static str = "Permission denied: cannot load plugins";
pub const DELETION_DISABLED: &'static str =
    "Plugin deletion is disabled by configuration. Set [plugins].allow_http_management = true to enable.";
pub const DELETION_DENIED: &'static str = "Permission denied: cannot delete plugins";
pub const INSTALLS_DISABLED: &'static str =
    "Marketplace installs are disabled by configuration. Set [plugins].marketplace_enabled = true to enable.";
pub const INSTALLS_DENIED: &'static str = "Permission denied: cannot install plugins";
pub const BROWSING_DISABLED: &'static str =
    "Marketplace browsing is disabled by configuration. Set [plugins].marketplace_enabled = true to enable.";
pub const BROWSING_DENIED: &'static str = "Permission denied: cannot view marketplace";

// ---------------------------------------------------------------------------
// Uploads
// ---------------------------------------------------------------------------

/// The fields of a plugin upload read so far: the declared kind and the
/// uploaded file's name.
#[derive(Debug, Clone)]
pub struct UploadForm {
    pub declared_kind: Option<String>,
    pub file_name: Option<String>,
}

pub open spec fn opt_view(o: Option<String>) -> Option<Seq<char>> {
    match o {
        Some(s) => Some(s@),
        None => None,
    }
}

impl UploadForm {
    /// An upload with no field read.
    pub fn new() -> (r: Self)
        ensures
            r.declared_kind is None,
            r.file_name is None,
    {
        UploadForm { declared_kind: None, file_name: None }
    }

    /// Reads a `kind` field: one at most, not blank; kept trimmed.
    pub fn on_kind(&mut self, value: &str) -> (r: Result<(), PluginHttpError>)
        ensures
            old(self).declared_kind is Some ==> (r matches Err(PluginHttpError::BadRequest(m)) && m@
                == "Multiple 'kind' fields provided"@) && *final(self) == *old(self),
            old(self).declared_kind is None && trim(value@).len() == 0 ==> (r matches Err(
                PluginHttpError::BadRequest(m),
            ) && m@ == "Plugin kind must not be empty"@) && *final(self) == *old(self),
            old(self).declared_kind is None && trim(value@).len() > 0 ==> r is Ok && opt_view(
                final(self).declared_kind,
            ) == Some(trim(value@)) && final(self).file_name == old(self).file_name,
    {
        if self.declared_kind.is_some() {
            return Err(PluginHttpError::BadRequest("Multiple 'kind' fields provided".to_owned()));
        }
        let v = chars_of(value);
        let t = trim_chars(&v);
        if t.len() == 0 {
            return Err(PluginHttpError::BadRequest("Plugin kind must not be empty".to_owned()));
        }
        self.declared_kind = Some(string_of(&t));
        Ok(())
    }

    /// Reads a `plugin` field, by the file name it carries: one at most,
    /// and it must name a file.
    pub fn on_plugin(&mut self, file_name: Option<&str>) -> (r: Result<(), PluginHttpError>)
        ensures
            old(self).file_name is Some ==> (r matches Err(PluginHttpError::BadRequest(m)) && m@
                == "Multiple 'plugin' fields provided"@) && *final(self) == *old(self),
            old(self).file_name is None && file_name is None ==> (r matches Err(PluginHttpError::BadRequest(m))
                && m@ == "Uploaded plugin file must include a filename"@) && *final(self) == *old(self),
            old(self).file_name is None && file_name is Some ==> r is Ok && opt_view(final(self).file_name)
                == Some(file_name->0@) && final(self).declared_kind == old(self).declared_kind,
    {
        if self.file_name.is_some() {
            return Err(PluginHttpError::BadRequest("Multiple 'plugin' fields provided".to_owned()));
        }
        match file_name {
            None => Err(PluginHttpError::BadRequest("Uploaded plugin file must include a filename".to_owned())),
            Some(f) => {
                self.file_name = Some(f.to_owned());
                Ok(())
            },
        }
    }

    /// The uploaded file's name, once all fields are read.
    pub fn uploaded_file(&self) -> (r: Result<String, PluginHttpError>)
        ensures
            self.file_name is None ==> (r matches Err(PluginHttpError::BadRequest(m)) && m@
                == "Missing 'plugin' file field"@),
            self.file_name matches Some(f) ==> (r matches Ok(g) && g@ == f@),
    {
        match &self.file_name {
            None => Err(PluginHttpError::BadRequest("Missing 'plugin' file field".to_owned())),
            Some(f) => Ok(f.clone()),
        }
    }
}

/// Counts a received chunk against the body limit: the new total (adding
/// without overflow, saturating), or the refusal once it exceeds `max`.
pub fn count_upload_chunk(total: usize, chunk_len: usize, max: usize) -> (r: Result<usize, PluginHttpError>)
    ensures
        ({
            let t = if total + chunk_len > usize::MAX {
                usize::MAX as int
            } else {
                total + chunk_len
            };
            &&& t > max ==> (r matches Err(PluginHttpError::BadRequest(m)) && m@
                == "Plugin upload exceeds configured max body size ("@ + decimal(max as nat) + " bytes)"@)
            &&& t <= max ==> r == Ok::<usize, PluginHttpError>(t as usize)
        }),
{
    let t = total.saturating_add(chunk_len);
    if t > max {
        let mut m = chars_of("Plugin upload exceeds configured max body size (");
        let d = decimal_chars(max as u64);
        extend_chars(&mut m, &d);
        extend_str(&mut m, " bytes)");
        return Err(PluginHttpError::BadRequest(string_of(&m)));
    }
    Ok(t)
}

/// The kind family an upload's file name implies: a WebAssembly module or
/// a native library, by extension.
pub open spec fn placeholder_of(file_name: Seq<char>) -> Option<Seq<char>> {
    match path_extension_of(file_name) {
        Some(e) => if e == "wasm"@ {
            Some("plugin::wasm::placeholder"@)
        } else if e == "so"@ || e == "dylib"@ || e == "dll"@ {
            Some("plugin::native::placeholder"@)
        } else {
            None
        },
        None => None,
    }
}

/// The kind family an upload's file name implies.
pub fn placeholder_kind(file_name: &str) -> (r: Option<&'static str>)
    ensures
        match placeholder_of(file_name@) {
            Some(k) => r matches Some(s) && s@ == k,
            None => r is None,
        },
{
    match path_extension(file_name) {
        None => None,
        Some(e) => {
            if str_equal(e.as_str(), "wasm") {
                Some("plugin::wasm::placeholder")
            } else if str_equal(e.as_str(), "so") || str_equal(e.as_str(), "dylib") || str_equal(e.as_str(), "dll") {
                Some("plugin::native::placeholder")
            } else {
                None
            }
        },
    }
}

/// Checks the declared kind of an upload against the file's type and the
/// caller's plugin allowlist; without a declared kind, a restricted
/// allowlist must still admit the file's kind family.
pub fn check_declared_kind(perms: &Permissions, declared: Option<&str>, file_name: &str) -> (r: Result<(), PluginHttpError>)
    ensures
        ({
            let allowed = |k: Seq<char>| allowlist_admits(texts(perms.allowed_plugins@), k);
            match declared {
                Some(kind) => {
                    let prefix_ok = match placeholder_of(file_name@) {
                        Some(p) => if has_prefix(p, "plugin::wasm::"@) {
                            has_prefix(kind@, "plugin::wasm::"@)
                        } else {
                            has_prefix(kind@, "plugin::native::"@)
                        },
                        None => true,
                    };
                    &&& !prefix_ok ==> (r matches Err(PluginHttpError::BadRequest(m)) && m@
                        == "Declared plugin kind '"@ + kind@ + "' does not match uploaded file type"@)
                    &&& prefix_ok && !allowed(kind@) ==> (r matches Err(PluginHttpError::Forbidden(m)) && m@
                        == "Permission denied: plugin '"@ + kind@ + "' not allowed"@)
                    &&& prefix_ok && allowed(kind@) ==> r is Ok
                },
                None => match placeholder_of(file_name@) {
                    Some(p) => (!allowed(p) ==> (r matches Err(PluginHttpError::BadRequest(m)) && m@
                        == "Plugin kind must be provided when allowed_plugins is restricted"@)) && (
                    allowed(p) ==> r is Ok),
                    None => r is Ok,
                },
            }
        }),
{
    let placeholder = placeholder_kind(file_name);
    match declared {
        Some(kind) => {
            if let Some(p) = placeholder {
                let pv = chars_of(p);
                let wasm = chars_of("plugin::wasm::");
                let kv = chars_of(kind);
                let expected = if starts_with(&pv, &wasm) {
                    wasm
                } else {
                    chars_of("plugin::native::")
                };
                if !starts_with(&kv, &expected) {
                    let mut m = chars_of("Declared plugin kind '");
                    extend_str(&mut m, kind);
                    extend_str(&mut m, "' does not match uploaded file type");
                    return Err(PluginHttpError::BadRequest(string_of(&m)));
                }
            }
            if !perms.is_plugin_allowed(kind) {
                let mut m = chars_of("Permission denied: plugin '");
                extend_str(&mut m, kind);
                extend_str(&mut m, "' not allowed");
                return Err(PluginHttpError::Forbidden(string_of(&m)));
            }
            Ok(())
        },
        None => {
            if let Some(p) = placeholder {
                if !perms.is_plugin_allowed(p) {
                    return Err(
                        PluginHttpError::BadRequest(
                            "Plugin kind must be provided when allowed_plugins is restricted".to_owned(),
                        ),
                    );
                }
            }
            Ok(())
        },
    }
}

/// Checks the kind a loaded plugin registered: the caller must be allowed
/// it, and it must be the declared kind when one was declared. A refused
/// plugin is unloaded again by the server.
pub fn check_loaded_kind(perms: &Permissions, loaded: &str, declared: Option<&str>) -> (r: Result<(), PluginHttpError>)
    ensures
        !allowlist_admits(texts(perms.allowed_plugins@), loaded@) ==> (r matches Err(PluginHttpError::Forbidden(m))
            && m@ == "Permission denied: plugin '"@ + loaded@ + "' not allowed"@),
        allowlist_admits(texts(perms.allowed_plugins@), loaded@) && declared is Some && declared->0@ != loaded@ ==> (
        r matches Err(PluginHttpError::BadRequest(m)) && m@ == "Uploaded plugin kind '"@ + loaded@
            + "' does not match declared kind '"@ + declared->0@ + "'"@),
        allowlist_admits(texts(perms.allowed_plugins@), loaded@) && (declared is None || declared->0@ == loaded@) ==> r is Ok,
{
    if !perms.is_plugin_allowed(loaded) {
        let mut m = chars_of("Permission denied: plugin '");
        extend_str(&mut m, loaded);
        extend_str(&mut m, "' not allowed");
        return Err(PluginHttpError::Forbidden(string_of(&m)));
    }
    if let Some(kind) = declared {
        if !str_equal(loaded, kind) {
            let mut m = chars_of("Uploaded plugin kind '");
            extend_str(&mut m, loaded);
            extend_str(&mut m, "' does not match declared kind '");
            extend_str(&mut m, kind);
            extend_str(&mut m, "'");
            return Err(PluginHttpError::BadRequest(string_of(&m)));
        }
    }
    Ok(())
}

// ---------------------------------------------------------------------------
// Marketplace
// ---------------------------------------------------------------------------

fn refuse(status: u16, m: Vec<char>) -> (r: HttpRefusal)
    ensures
        r.status == status,
        r.message@ == m@,
{
    HttpRefusal { status, message: string_of(&m) }
}

/// The registry a marketplace request names, trimmed; refused when blank,
/// or when it is not one of the configured registries.
pub fn marketplace_registry(raw: &str, configured: bool) -> (r: Result<String, HttpRefusal>)
    ensures
        trim(raw@).len() == 0 ==> (r matches Err(e) && refusal_is(e, 400, "Registry is required"@)),
        trim(raw@).len() > 0 && !configured ==> (r matches Err(e) && refusal_is(
            e,
            400,
            "Registry '"@ + trim(raw@) + "' is not configured"@,
        )),
        trim(raw@).len() > 0 && configured ==> (r matches Ok(s) && s@ == trim(raw@)),
{
    let v = chars_of(raw);
    let t = trim_chars(&v);
    if t.len() == 0 {
        return Err(refuse(400, chars_of("Registry is required")));
    }
    if !configured {
        let mut m = chars_of("Registry '");
        extend_chars(&mut m, &t);
        extend_str(&mut m, "' is not configured");
        return Err(refuse(400, m));
    }
    Ok(string_of(&t))
}

/// The plugin id a marketplace request names, trimmed; refused when blank
/// or not a single safe path component.
pub fn marketplace_plugin_id(raw: &str) -> (r: Result<String, HttpRefusal>)
    ensures
        trim(raw@).len() == 0 ==> (r matches Err(e) && refusal_is(e, 400, "Plugin id is required"@)),
        trim(raw@).len() > 0 ==> (component_refusal(trim(raw@)) matches Some(c) ==> (r matches Err(e)
            && refusal_is(e, 400, refusal_text("plugin id"@, c)))),
        trim(raw@).len() > 0 && component_refusal(trim(raw@)) is None ==> (r matches Ok(s) && s@ == trim(raw@)),
{
    let v = chars_of(raw);
    let t = trim_chars(&v);
    if t.len() == 0 {
        return Err(refuse(400, chars_of("Plugin id is required")));
    }
    let id = string_of(&t);
    proof {
        crate::text::lemma_trim_idempotent(raw@);
    }
    match validate_path_component("plugin id", id.as_str()) {
        Err(e) => Err(HttpRefusal { status: 400, message: e.to_string() }),
        Ok(()) => Ok(id),
    }
}

/// The first position of `id` among the registry's plugin ids.
pub open spec fn first_position(ids: Seq<Seq<char>>, id: Seq<char>) -> Option<int> {
    if exists|i: int| 0 <= i < ids.len() && ids[i] == id && forall|j: int| 0 <= j < i ==> ids[j] != id {
        Some(choose|i: int| 0 <= i < ids.len() && ids[i] == id && forall|j: int| 0 <= j < i ==> ids[j] != id)
    } else {
        None
    }
}

fn find_first(ids: &Vec<String>, id: &str) -> (r: Option<usize>)
    ensures
        match r {
            Some(i) => first_position(texts(ids@), id@) == Some(i as int) && i < ids@.len(),
            None => first_position(texts(ids@), id@) is None,
        },
{
    let ghost t = texts(ids@);
    for i in 0..ids.len()
        invariant
            t == texts(ids@),
            forall|j: int| 0 <= j < i ==> t[j] != id@,
    {
        if str_equal(ids[i].as_str(), id) {
            proof {
                assert(t[i as int] == id@);
                let k = choose|k: int| 0 <= k < t.len() && t[k] == id@ && forall|j: int| 0 <= j < k ==> t[j] != id@;
                if k < i {
                    assert(t[k] != id@);
                } else if k > i {
                    assert(t[i as int] != id@);
                }
            }
            return Some(i);
        }
    }
    None
}

/// Finds a plugin of the registry by id (404 when absent).
pub fn find_registry_plugin(ids: &Vec<String>, id: &str) -> (r: Result<usize, HttpRefusal>)
    ensures
        match first_position(texts(ids@), id@) {
            Some(i) => r == Ok::<usize, HttpRefusal>(i as usize),
            None => r matches Err(e) && refusal_is(e, 404, "Plugin '"@ + id@ + "' not found in registry"@),
        },
{
    match find_first(ids, id) {
        Some(i) => Ok(i),
        None => {
            let mut m = chars_of("Plugin '");
            extend_str(&mut m, id);
            extend_str(&mut m, "' not found in registry");
            Err(refuse(404, m))
        },
    }
}

/// The version a request asks for, trimmed, when it names one.
pub open spec fn requested_version(raw: Option<Seq<char>>) -> Option<Seq<char>> {
    match raw {
        Some(v) => if trim(v).len() > 0 {
            Some(trim(v))
        } else {
            None
        },
        None => None,
    }
}

/// The version shown for a plugin (its position among the plugin's
/// versions): the one requested; else the latest, or the first when the
/// latest is not listed; else the first.
pub open spec fn chosen_version(
    versions: Seq<Seq<char>>,
    latest: Option<Seq<char>>,
    requested: Option<Seq<char>>,
) -> Option<int> {
    match requested_version(requested) {
        Some(v) => first_position(versions, v),
        None => match latest {
            Some(l) => match first_position(versions, l) {
                Some(i) => Some(i),
                None => if versions.len() > 0 {
                    Some(0)
                } else {
                    None
                },
            },
            None => if versions.len() > 0 {
                Some(0)
            } else {
                None
            },
        },
    }
}

/// Chooses the version shown for `plugin_id` (404 when none fits).
pub fn choose_version(
    plugin_id: &str,
    versions: &Vec<String>,
    latest: Option<&str>,
    requested: Option<&str>,
) -> (r: Result<usize, HttpRefusal>)
    ensures
        match chosen_version(
            texts(versions@),
            match latest {
                Some(l) => Some(l@),
                None => None,
            },
            match requested {
                Some(q) => Some(q@),
                None => None,
            },
        ) {
            Some(i) => r == Ok::<usize, HttpRefusal>(i as usize),
            None => r matches Err(e) && refusal_is(
                e,
                404,
                "No versions available for plugin '"@ + plugin_id@ + "'"@,
            ),
        },
{
    let mut requested_trimmed: Option<String> = None;
    if let Some(q) = requested {
        let v = chars_of(q);
        let t = trim_chars(&v);
        if t.len() > 0 {
            requested_trimmed = Some(string_of(&t));
        }
    }
    let found = match &requested_trimmed {
        Some(q) => find_first(versions, q.as_str()),
        None => match latest {
            Some(l) => match find_first(versions, l) {
                Some(i) => Some(i),
                None => if versions.len() > 0 {
                    Some(0)
                } else {
                    None
                },
            },
            None => if versions.len() > 0 {
                Some(0)
            } else {
                None
            },
        },
    };
    match found {
        Some(i) => Ok(i),
        None => {
            let mut m = chars_of("No versions available for plugin '");
            extend_str(&mut m, plugin_id);
            extend_str(&mut m, "'");
            Err(refuse(404, m))
        },
    }
}

/// The signature of a manifest: the one the registry names, else the
/// manifest's URL with `.minisig` appended.
pub fn signature_url_for(manifest_url: &str, signature_url: Option<&str>) -> (r: String)
    ensures
        signature_url matches Some(s) ==> r@ == s@,
        signature_url is None ==> r@ == manifest_url@ + ".minisig"@,
{
    match signature_url {
        Some(s) => s.to_owned(),
        None => {
            let mut m = chars_of(manifest_url);
            extend_str(&mut m, ".minisig");
            string_of(&m)
        },
    }
}

// ---------------------------------------------------------------------------
// Installed plugins
// ---------------------------------------------------------------------------

/// Whether a file of the active records directory is a record (`.json`).
pub fn is_record_file(path: &str) -> (r: bool)
    ensures
        r == (path_extension_of(path@) == Some("json"@)),
{
    match path_extension(path) {
        Some(e) => str_equal(e.as_str(), "json"),
        None => false,
    }
}

/// Whether an active record belongs to the plugin registered as `kind`.
pub fn record_matches_kind(record: &ActivePluginRecord, kind: &str) -> (r: bool)
    ensures
        r == (namespaced_kind_of(record.kind, record.node_kind@) == kind@),
{
    let k = namespaced_kind(record);
    str_equal(k.as_str(), kind)
}

/// The directories of an installed marketplace plugin under the plugin
/// directory: its bundles, the bundle of its version, and its cache.
pub open spec fn bundle_dirs_of(plugin_dir: Seq<char>, plugin_id: Seq<char>, version: Seq<char>) -> (Seq<char>, Seq<char>, Seq<char>) {
    let bundles_root = join_text(join_text(plugin_dir, "bundles"@), plugin_id);
    (bundles_root, join_text(bundles_root, version), join_text(join_text(plugin_dir, "cache"@), plugin_id))
}

/// The directories of an installed plugin, once its id and version are
/// checked to be single path components.
pub fn bundle_dirs(plugin_dir: &str, record: &ActivePluginRecord) -> (r: Result<(String, String, String), PluginPathError>)
    ensures
        component_refusal(record.plugin_id@) matches Some(c) ==> (r matches Err(e) && path_error_message(e)
            == refusal_text("plugin id"@, c)),
        component_refusal(record.plugin_id@) is None ==> (component_refusal(record.version@) matches Some(c)
            ==> (r matches Err(e) && path_error_message(e) == refusal_text("plugin version"@, c))),
        component_refusal(record.plugin_id@) is None && component_refusal(record.version@) is None ==> (r matches Ok(
            d,
        ) && (d.0@, d.1@, d.2@) == bundle_dirs_of(plugin_dir@, record.plugin_id@, record.version@)),
{
    if let Err(e) = validate_path_component("plugin id", record.plugin_id.as_str()) {
        return Err(e);
    }
    if let Err(e) = validate_path_component("plugin version", record.version.as_str()) {
        return Err(e);
    }
    let bundles = path_join(plugin_dir, "bundles");
    let bundles_root = path_join(bundles.as_str(), record.plugin_id.as_str());
    let bundle_dir = path_join(bundles_root.as_str(), record.version.as_str());
    let cache = path_join(plugin_dir, "cache");
    let cache_root = path_join(cache.as_str(), record.plugin_id.as_str());
    Ok((bundles_root, bundle_dir, cache_root))
}

} // verus!
