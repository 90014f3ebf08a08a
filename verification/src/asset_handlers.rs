//! The decisions of the plugin asset endpoints: which files of an asset
//! type's directories are listed and how, the checks on an asset id and
//! scope, the headers of a served asset, the size limit of an upload, and
//! the list of asset types offered to the UI.
use vstd::prelude::*;

use crate::metrics_labels::{lemma_text_lt_transitive, lemma_text_lt_trichotomy, text_less, text_lt};
use crate::paths::{opt_chars, path_extension, path_extension_of, path_file_name, path_file_name_of, file_name_text, path_parent, path_parent_of, parent_text};
use crate::permissions::{allowlist_admits, texts, Permissions};
use crate::plugin_assets::{AssetContentType, AssetTypeView, PluginAssetError, RegisteredAssetType};
use crate::text::{chars_of, contains, contains_char, contains_seq, eq_ignore_ascii_case, eq_ignore_case, extend_str, replace_char, replace_chars, str_equal, string_of, trim_end_matches_str, trim_end_str};
use crate::unicode::{to_lowercase, unicode_lower_of};

verus! {

/// A listed asset.
#[derive(Debug, Clone)]
pub struct PluginAsset {
    pub id: String,
    pub name: String,
    pub path: String,
    pub format: String,
    pub size_bytes: u64,
    pub is_system: bool,
    pub type_id: String,
    pub plugin_id: String,
}

/// The base of an asset type's virtual paths: the parent of its system
/// directory, or the directory itself when it has none.
pub open spec fn asset_base_of(system_dir: Seq<char>) -> Seq<char> {
    match parent_text(system_dir) {
        Some(p) => p,
        None => system_dir,
    }
}

/// The virtual path of an asset, which the asset allowlists match:
/// `<base>/<scope>/<file>`.
pub open spec fn asset_virtual_path(system_dir: Seq<char>, is_system: bool, file: Seq<char>) -> Seq<char> {
    asset_base_of(system_dir) + "/"@ + if is_system {
        "system"@
    } else {
        "user"@
    } + "/"@ + file
}

/// The displayed name of an asset file: without its extension, with `_`
/// and `-` read as spaces.
pub open spec fn asset_display_name(file: Seq<char>, ext: Seq<char>) -> Seq<char> {
    replace_char(replace_char(trim_end_str(file, "."@ + ext), '_', ' '), '-', ' ')
}

/// Whether an extension is one of the asset type's, in any ASCII case.
pub open spec fn extension_listed(extensions: Seq<Seq<char>>, ext: Seq<char>) -> bool {
    exists|i: int| 0 <= i < extensions.len() && eq_ignore_ascii_case(#[trigger] extensions[i], ext)
}

fn asset_base(system_dir: &str) -> (r: String)
    ensures
        r@ == asset_base_of(system_dir@),
{
    match path_parent(system_dir) {
        Some(p) => p,
        None => system_dir.to_owned(),
    }
}

/// The virtual path of an asset of the type.
pub fn asset_path(system_dir: &str, is_system: bool, file: &str) -> (r: String)
    ensures
        r@ == asset_virtual_path(system_dir@, is_system, file@),
{
    let base = asset_base(system_dir);
    let mut m = chars_of(base.as_str());
    extend_str(&mut m, "/");
    if is_system {
        extend_str(&mut m, "system");
    } else {
        extend_str(&mut m, "user");
    }
    extend_str(&mut m, "/");
    extend_str(&mut m, file);
    string_of(&m)
}

/// The displayed name of an asset file.
pub fn display_name(file: &str, ext: &str) -> (r: String)
    ensures
        r@ == asset_display_name(file@, ext@),
{
    let f = chars_of(file);
    let mut suffix = chars_of(".");
    extend_str(&mut suffix, ext);
    let t = trim_end_matches_str(&f, &suffix);
    let a = replace_chars(&t, '_', ' ');
    let b = replace_chars(&a, '-', ' ');
    string_of(&b)
}

/// Whether an extension is one of the asset type's.
pub fn extension_allowed(extensions: &Vec<String>, ext: &str) -> (r: bool)
    ensures
        r == extension_listed(texts(extensions@), ext@),
{
    let e = chars_of(ext);
    for i in 0..extensions.len()
        invariant
            e@ == ext@,
            forall|j: int| 0 <= j < i ==> !eq_ignore_ascii_case(#[trigger] texts(extensions@)[j], ext@),
    {
        let x = chars_of(extensions[i].as_str());
        if eq_ignore_case(&x, &e) {
            assert(eq_ignore_ascii_case(texts(extensions@)[i as int], ext@));
            return true;
        }
    }
    false
}

/// The asset listed for a file of one of the type's directories: files
/// only, with a name and an extension of the type, that the caller's asset
/// allowlist admits.
pub open spec fn listed_asset(
    path: Seq<char>,
    is_dir: bool,
    is_system: bool,
    t: AssetTypeView,
    allowed_assets: Seq<Seq<char>>,
) -> Option<(Seq<char>, Seq<char>, Seq<char>, Seq<char>)> {
    if is_dir {
        None
    } else {
        match (file_name_text(path), path_extension_of(path)) {
            (Some(file), Some(raw_ext)) => {
                let ext = unicode_lower_of(raw_ext);
                let vpath = asset_virtual_path(t.system_dir, is_system, file);
                if !extension_listed(t.extensions, ext) || !allowlist_admits(allowed_assets, vpath) {
                    None
                } else {
                    Some((file, asset_display_name(file, ext), vpath, ext))
                }
            },
            _ => None,
        }
    }
}

/// The asset listed for a directory entry (its path, whether it is a
/// directory, its size), if any.
pub fn asset_from_entry(
    path: &str,
    is_dir: bool,
    size_bytes: u64,
    is_system: bool,
    asset_type: &RegisteredAssetType,
    perms: &Permissions,
) -> (r: Option<PluginAsset>)
    ensures
        match listed_asset(path@, is_dir, is_system, asset_type@, texts(perms.allowed_assets@)) {
            None => r is None,
            Some((id, name, vpath, format)) => r matches Some(a) && a.id@ == id && a.name@ == name && a.path@
                == vpath && a.format@ == format && a.size_bytes == size_bytes && a.is_system == is_system
                && a.type_id@ == asset_type.type_id@ && a.plugin_id@ == asset_type.plugin_id@,
        },
{
    if is_dir {
        return None;
    }
    let file = match path_file_name(path) {
        Some(f) => f,
        None => {
            return None;
        },
    };
    let raw_ext = match path_extension(path) {
        Some(e) => e,
        None => {
            return None;
        },
    };
    let ext = to_lowercase(raw_ext.as_str());
    if !extension_allowed(&asset_type.extensions, ext.as_str()) {
        return None;
    }
    let vpath = asset_path(asset_type.system_dir.as_str(), is_system, file.as_str());
    if !perms.is_asset_allowed(vpath.as_str()) {
        return None;
    }
    let name = display_name(file.as_str(), ext.as_str());
    Some(
        PluginAsset {
            id: file,
            name,
            path: vpath,
            format: ext,
            size_bytes,
            is_system,
            type_id: asset_type.type_id.clone(),
            plugin_id: asset_type.plugin_id.clone(),
        },
    )
}

pub open spec fn names_sorted(v: Seq<PluginAsset>) -> bool {
    forall|i: int, j: int| 0 <= i < j < v.len() ==> !text_lt(#[trigger] v[j].name@, #[trigger] v[i].name@)
}

/// What a listed asset is, as contracts see it.
pub open spec fn asset_view(a: PluginAsset) -> (Seq<char>, Seq<char>, Seq<char>, Seq<char>, u64, bool, Seq<char>, Seq<char>) {
    (a.id@, a.name@, a.path@, a.format@, a.size_bytes, a.is_system, a.type_id@, a.plugin_id@)
}

pub open spec fn asset_views(v: Seq<PluginAsset>) -> Seq<(Seq<char>, Seq<char>, Seq<char>, Seq<char>, u64, bool, Seq<char>, Seq<char>)> {
    v.map_values(|a: PluginAsset| asset_view(a))
}

fn copy_asset(a: &PluginAsset) -> (r: PluginAsset)
    ensures
        asset_view(r) == asset_view(*a),
{
    PluginAsset {
        id: a.id.clone(),
        name: a.name.clone(),
        path: a.path.clone(),
        format: a.format.clone(),
        size_bytes: a.size_bytes,
        is_system: a.is_system,
        type_id: a.type_id.clone(),
        plugin_id: a.plugin_id.clone(),
    }
}

/// Sorts listed assets by name (ascending text order).
pub fn sort_assets_by_name(assets: &Vec<PluginAsset>) -> (r: Vec<PluginAsset>)
    ensures
        names_sorted(r@),
        asset_views(r@).to_multiset() == asset_views(assets@).to_multiset(),
{
    let mut out: Vec<PluginAsset> = Vec::new();
    assert(asset_views(out@) =~= asset_views(assets@.take(0)));
    for i in 0..assets.len()
        invariant
            names_sorted(out@),
            asset_views(out@).to_multiset() == asset_views(assets@.take(i as int)).to_multiset(),
    {
        let x = copy_asset(&assets[i]);
        let xn = chars_of(x.name.as_str());
        let mut p: usize = out.len();
        while p > 0 && text_less(&xn, &chars_of(out[p - 1].name.as_str()))
            invariant
                p <= out@.len(),
                xn@ == x.name@,
                names_sorted(out@),
                forall|k: int| p <= k < out@.len() ==> text_lt(xn@, #[trigger] out@[k].name@),
            decreases p,
        {
            p = p - 1;
        }
        let ghost before = out@;
        proof {
            if p > 0 {
                lemma_text_lt_trichotomy(xn@, before[p - 1].name@);
            }
        }
        let ghost xv = x;
        out.insert(p, x);
        proof {
            let nv = out@;
            assert(nv =~= before.insert(p as int, xv));
            assert forall|i: int, j: int| 0 <= i < j < nv.len() implies !text_lt(#[trigger] nv[j].name@, #[trigger] nv[i].name@) by {
                if j < p {
                    assert(nv[i] == before[i] && nv[j] == before[j]);
                } else if j == p {
                    assert(nv[i] == before[i]);
                    assert(nv[j] == xv);
                    if text_lt(xv.name@, before[i].name@) {
                        lemma_text_lt_trichotomy(before[i].name@, before[p - 1].name@);
                        if before[i].name@ != before[p - 1].name@ {
                            if i < p - 1 {
                                assert(!text_lt(before[p - 1].name@, before[i].name@));
                            }
                            lemma_text_lt_transitive(xv.name@, before[i].name@, before[p - 1].name@);
                        }
                    }
                } else if i == p {
                    assert(nv[i] == xv);
                    assert(nv[j] == before[j - 1]);
                    assert(text_lt(xv.name@, before[j - 1].name@));
                    lemma_text_lt_trichotomy(xv.name@, before[j - 1].name@);
                } else if i > p {
                    assert(nv[i] == before[i - 1] && nv[j] == before[j - 1]);
                } else {
                    assert(nv[i] == before[i] && nv[j] == before[j - 1]);
                }
            }
            assert(asset_views(nv) =~= asset_views(before).insert(p as int, asset_view(xv)));
            assert(asset_views(assets@.take(i + 1)) =~= asset_views(assets@.take(i as int)).push(
                asset_view(assets@[i as int]),
            ));
            assert(asset_view(xv) == asset_view(assets@[i as int]));
            vstd::seq_lib::to_multiset_insert(asset_views(before), p as int, asset_view(xv));
            vstd::seq_lib::to_multiset_build(asset_views(assets@.take(i as int)), asset_view(assets@[i as int]));
        }
    }
    assert(assets@.take(assets.len() as int) =~= assets@);
    out
}

// ---------------------------------------------------------------------------
// Requests on one asset
// ---------------------------------------------------------------------------

/// The answer to a request for an asset type that is not registered.
pub open spec fn unknown_type_message(type_id: Seq<char>) -> Seq<char> {
    "Unknown asset type: "@ + type_id
}

/// The body of the 404 answer to an unknown asset type.
pub fn unknown_type(type_id: &str) -> (r: (u16, String))
    ensures
        r.0 == 404,
        r.1@ == unknown_type_message(type_id@),
{
    let mut m = chars_of("Unknown asset type: ");
    extend_str(&mut m, type_id);
    (404, string_of(&m))
}

/// An asset id is a bare file name: no `..`, `/` or `\`.
pub open spec fn id_acceptable(id: Seq<char>) -> bool {
    !contains_seq(id, ".."@) && !id.contains('/') && !id.contains('\\')
}

/// Checks an asset id of a request.
pub fn check_asset_id(id: &str) -> (r: Result<(), PluginAssetError>)
    ensures
        id_acceptable(id@) ==> r is Ok,
        !id_acceptable(id@) ==> (r matches Err(PluginAssetError::InvalidFilename(m)) && m@
            == "Invalid characters in filename"@),
{
    let v = chars_of(id);
    let dd = chars_of("..");
    if contains(&v, &dd) || contains_char(&v, '/') || contains_char(&v, '\\') {
        return Err(PluginAssetError::InvalidFilename("Invalid characters in filename".to_owned()));
    }
    Ok(())
}

/// Checks a request to serve a file: a bare id and a scope of `user` or
/// `system`; gives whether the scope is `system`.
pub fn check_serve_request(id: &str, scope: &str) -> (r: Result<bool, PluginAssetError>)
    ensures
        !id_acceptable(id@) ==> (r matches Err(PluginAssetError::InvalidFilename(m)) && m@
            == "Invalid characters in filename"@),
        id_acceptable(id@) && scope@ != "user"@ && scope@ != "system"@ ==> (r matches Err(
            PluginAssetError::InvalidFilename(m),
        ) && m@ == "Invalid scope: must be 'user' or 'system'"@),
        id_acceptable(id@) && scope@ == "system"@ ==> r == Ok::<bool, PluginAssetError>(true),
        id_acceptable(id@) && scope@ == "user"@ && scope@ != "system"@ ==> r == Ok::<bool, PluginAssetError>(false),
{
    check_asset_id(id)?;
    if str_equal(scope, "system") {
        return Ok(true);
    }
    if str_equal(scope, "user") {
        return Ok(false);
    }
    Err(PluginAssetError::InvalidFilename("Invalid scope: must be 'user' or 'system'".to_owned()))
}

/// Checks that a served file's extension (lower-cased) is one of the
/// type's.
pub fn check_served_extension(file_path: &str, extensions: &Vec<String>, type_id: &str) -> (r: Result<(), PluginAssetError>)
    ensures
        ({
            let ext = match path_extension_of(file_path@) {
                Some(e) => unicode_lower_of(e),
                None => Seq::<char>::empty(),
            };
            &&& extension_listed(texts(extensions@), ext) ==> r is Ok
            &&& !extension_listed(texts(extensions@), ext) ==> (r matches Err(PluginAssetError::InvalidFormat(m)) && m@
                == "File extension '"@ + ext + "' is not permitted for asset type '"@ + type_id@ + "'"@)
        }),
{
    let ext = match path_extension(file_path) {
        Some(e) => to_lowercase(e.as_str()),
        None => String::new(),
    };
    if extension_allowed(extensions, ext.as_str()) {
        return Ok(());
    }
    let mut m = chars_of("File extension '");
    extend_str(&mut m, ext.as_str());
    extend_str(&mut m, "' is not permitted for asset type '");
    extend_str(&mut m, type_id);
    extend_str(&mut m, "'");
    Err(PluginAssetError::InvalidFormat(string_of(&m)))
}

/// The headers of a served asset: its content type, caching, and download
/// name.
pub fn served_asset_headers(content_type: AssetContentType, id: &str) -> (r: (&'static str, &'static str, String))
    ensures
        content_type == AssetContentType::Text ==> r.0@ == "text/plain; charset=utf-8"@,
        content_type == AssetContentType::Binary ==> r.0@ == "application/octet-stream"@,
        r.1@ == "public, must-revalidate"@,
        r.2@ == "attachment; filename=\""@ + id@ + "\""@,
{
    let ct = match content_type {
        AssetContentType::Text => "text/plain; charset=utf-8",
        AssetContentType::Binary => "application/octet-stream",
    };
    let mut d = chars_of("attachment; filename=\"");
    extend_str(&mut d, id);
    extend_str(&mut d, "\"");
    (ct, "public, must-revalidate", string_of(&d))
}

/// Checks an in-place update of a text asset, before its file is checked:
/// the caller may upload, the scope is `user`, the id is bare, and the type
/// holds text.
pub fn check_update_request(perms: &Permissions, scope: &str, id: &str) -> (r: Result<(), PluginAssetError>)
    ensures
        !perms.upload_assets ==> r == Err::<(), PluginAssetError>(PluginAssetError::Forbidden),
        perms.upload_assets && scope@ != "user"@ ==> r == Err::<(), PluginAssetError>(PluginAssetError::Forbidden),
        perms.upload_assets && scope@ == "user"@ && !id_acceptable(id@) ==> (r matches Err(
            PluginAssetError::InvalidFilename(m),
        ) && m@ == "Invalid characters in filename"@),
        perms.upload_assets && scope@ == "user"@ && id_acceptable(id@) ==> r is Ok,
{
    if !perms.upload_assets {
        return Err(PluginAssetError::Forbidden);
    }
    if !str_equal(scope, "user") {
        return Err(PluginAssetError::Forbidden);
    }
    check_asset_id(id)
}

/// Only text asset types can be edited in place.
pub fn check_editable(content_type: AssetContentType) -> (r: Result<(), PluginAssetError>)
    ensures
        content_type == AssetContentType::Text ==> r is Ok,
        content_type == AssetContentType::Binary ==> (r matches Err(PluginAssetError::InvalidRequest(m)) && m@
            == "Only text asset types support in-place editing"@),
{
    match content_type {
        AssetContentType::Text => Ok(()),
        AssetContentType::Binary => Err(
            PluginAssetError::InvalidRequest("Only text asset types support in-place editing".to_owned()),
        ),
    }
}

/// The name of an uploaded asset: its file name, sanitised; refused
/// without one.
pub fn upload_file_name(file_name: Option<&str>) -> (r: Result<String, PluginAssetError>)
    ensures
        file_name is None ==> (r matches Err(PluginAssetError::InvalidRequest(m)) && m@ == "No filename provided"@),
        file_name matches Some(f) ==> (r matches Ok(s) && s@ == crate::plugin_assets::sanitized(f@)),
{
    match file_name {
        None => Err(PluginAssetError::InvalidRequest("No filename provided".to_owned())),
        Some(f) => Ok(crate::plugin_assets::sanitize_filename(f)),
    }
}

/// Counts a received chunk of an upload against the type's size limit.
pub fn count_asset_chunk(total: usize, chunk_len: usize, max: usize) -> (r: Result<usize, PluginAssetError>)
    ensures
        ({
            let t = if total + chunk_len > usize::MAX {
                usize::MAX as int
            } else {
                total + chunk_len
            };
            &&& t > max ==> r == Err::<usize, PluginAssetError>(PluginAssetError::FileTooLarge(max))
            &&& t <= max ==> r == Ok::<usize, PluginAssetError>(t as usize)
        }),
{
    let t = total.saturating_add(chunk_len);
    if t > max {
        Err(PluginAssetError::FileTooLarge(max))
    } else {
        Ok(t)
    }
}

// ---------------------------------------------------------------------------
// Asset types
// ---------------------------------------------------------------------------

/// Where an asset type comes from.
#[derive(Debug, Clone, Copy, PartialEq, Eq, Structural)]
pub enum AssetTypeSource {
    Core,
    Plugin,
}

/// An asset type as the UI lists it.
#[derive(Debug, Clone)]
pub struct AssetTypeInfo {
    pub type_id: String,
    pub label: String,
    pub source: AssetTypeSource,
    pub plugin_id: Option<String>,
    pub node_kind: Option<String>,
    pub node_param: Option<String>,
    pub extensions: Vec<String>,
    pub icon_hint: String,
    pub editable: bool,
}

fn strings(items: &[&str]) -> (r: Vec<String>)
    ensures
        r@.len() == items@.len(),
        forall|i: int| 0 <= i < items@.len() ==> (#[trigger] r@[i])@ == items@[i]@,
{
    let mut r: Vec<String> = Vec::new();
    for i in 0..items.len()
        invariant
            r@.len() == i,
            forall|k: int| 0 <= k < i ==> (#[trigger] r@[k])@ == items@[k]@,
    {
        r.push(items[i].to_owned());
    }
    r
}

fn core_type(type_id: &str, label: &str, extensions: &[&str], icon: &str) -> (r: AssetTypeInfo)
    ensures
        r.type_id@ == type_id@,
        r.label@ == label@,
        r.source == AssetTypeSource::Core,
        r.plugin_id is None && r.node_kind is None && r.node_param is None,
        r.extensions@.len() == extensions@.len(),
        forall|i: int| 0 <= i < extensions@.len() ==> (#[trigger] r.extensions@[i])@ == extensions@[i]@,
        r.icon_hint@ == icon@,
        !r.editable,
{
    AssetTypeInfo {
        type_id: type_id.to_owned(),
        label: label.to_owned(),
        source: AssetTypeSource::Core,
        plugin_id: None,
        node_kind: None,
        node_param: None,
        extensions: strings(extensions),
        icon_hint: icon.to_owned(),
        editable: false,
    }
}

/// How a registered plugin asset type is listed: with its plugin and node,
/// a `file` icon unless it names one, editable when it holds text.
pub open spec fn plugin_type_listed(info: AssetTypeInfo, t: AssetTypeView) -> bool {
    &&& info.type_id@ == t.type_id
    &&& info.label@ == t.label
    &&& info.source == AssetTypeSource::Plugin
    &&& opt_chars(info.plugin_id) == Some(t.plugin_id)
    &&& opt_chars(info.node_kind) == Some(t.node_kind)
    &&& opt_chars(info.node_param) == t.node_param
    &&& texts(info.extensions@) == t.extensions
    &&& info.icon_hint@ == match t.icon_hint {
        Some(i) => i,
        None => "file"@,
    }
    &&& info.editable == (t.content_type == AssetContentType::Text)
}

fn copy_texts(v: &Vec<String>) -> (r: Vec<String>)
    ensures
        texts(r@) == texts(v@),
{
    let mut r: Vec<String> = Vec::new();
    for i in 0..v.len()
        invariant
            texts(r@) == texts(v@.take(i as int)),
    {
        let ghost before = texts(r@);
        r.push(v[i].clone());
        assert(texts(r@) =~= before.push(v@[i as int]@));
        assert(texts(v@.take(i + 1)) =~= texts(v@.take(i as int)).push(v@[i as int]@));
    }
    assert(v@.take(v.len() as int) =~= v@);
    r
}

fn copy_opt(o: &Option<String>) -> (r: Option<String>)
    ensures
        opt_chars(r) == opt_chars(*o),
{
    match o {
        Some(s) => Some(s.clone()),
        None => None,
    }
}

/// The asset types offered to the UI: the core audio, image and font types,
/// then the registered plugin types in order.
pub fn asset_type_infos(registered: &Vec<RegisteredAssetType>) -> (r: Vec<AssetTypeInfo>)
    ensures
        r@.len() == 3 + registered@.len(),
        r@[0].type_id@ == "audio"@ && r@[0].label@ == "Audio"@ && r@[0].icon_hint@ == "music"@,
        r@[1].type_id@ == "image"@ && r@[1].label@ == "Images"@ && r@[1].icon_hint@ == "image"@,
        r@[2].type_id@ == "font"@ && r@[2].label@ == "Fonts"@ && r@[2].icon_hint@ == "type"@,
        forall|i: int| 0 <= i < 3 ==> (#[trigger] r@[i]).source == AssetTypeSource::Core && !r@[i].editable
            && r@[i].plugin_id is None && r@[i].node_kind is None && r@[i].node_param is None,
        texts(r@[0].extensions@) == seq!["opus"@, "ogg"@, "flac"@, "mp3"@, "wav"@],
        texts(r@[1].extensions@) == seq!["png"@, "jpg"@, "jpeg"@, "webp"@, "gif"@, "svg"@, "svgz"@],
        texts(r@[2].extensions@) == seq!["ttf"@, "otf"@, "woff2"@],
        forall|i: int| 0 <= i < registered@.len() ==> plugin_type_listed(#[trigger] r@[3 + i], registered@[i]@),
{
    let mut r: Vec<AssetTypeInfo> = Vec::new();
    r.push(core_type("audio", "Audio", &["opus", "ogg", "flac", "mp3", "wav"], "music"));
    r.push(core_type("image", "Images", &["png", "jpg", "jpeg", "webp", "gif", "svg", "svgz"], "image"));
    r.push(core_type("font", "Fonts", &["ttf", "otf", "woff2"], "type"));
    assert(texts(r@[0].extensions@) =~= seq!["opus"@, "ogg"@, "flac"@, "mp3"@, "wav"@]);
    assert(texts(r@[1].extensions@) =~= seq!["png"@, "jpg"@, "jpeg"@, "webp"@, "gif"@, "svg"@, "svgz"@]);
    assert(texts(r@[2].extensions@) =~= seq!["ttf"@, "otf"@, "woff2"@]);
    for i in 0..registered.len()
        invariant
            r@.len() == 3 + i,
            r@[0].type_id@ == "audio"@ && r@[0].label@ == "Audio"@ && r@[0].icon_hint@ == "music"@,
            r@[1].type_id@ == "image"@ && r@[1].label@ == "Images"@ && r@[1].icon_hint@ == "image"@,
            r@[2].type_id@ == "font"@ && r@[2].label@ == "Fonts"@ && r@[2].icon_hint@ == "type"@,
            forall|k: int| 0 <= k < 3 ==> (#[trigger] r@[k]).source == AssetTypeSource::Core && !r@[k].editable
                && r@[k].plugin_id is None && r@[k].node_kind is None && r@[k].node_param is None,
            texts(r@[0].extensions@) == seq!["opus"@, "ogg"@, "flac"@, "mp3"@, "wav"@],
            texts(r@[1].extensions@) == seq!["png"@, "jpg"@, "jpeg"@, "webp"@, "gif"@, "svg"@, "svgz"@],
            texts(r@[2].extensions@) == seq!["ttf"@, "otf"@, "woff2"@],
            forall|k: int| 0 <= k < i ==> plugin_type_listed(#[trigger] r@[3 + k], registered@[k]@),
    {
        let t = &registered[i];
        let icon = match &t.icon_hint {
            Some(h) => h.clone(),
            None => "file".to_owned(),
        };
        let editable = match t.content_type {
            AssetContentType::Text => true,
            AssetContentType::Binary => false,
        };
        let info = AssetTypeInfo {
            type_id: t.type_id.clone(),
            label: t.label.clone(),
            source: AssetTypeSource::Plugin,
            plugin_id: Some(t.plugin_id.clone()),
            node_kind: Some(t.node_kind.clone()),
            node_param: copy_opt(&t.node_param),
            extensions: copy_texts(&t.extensions),
            icon_hint: icon,
            editable,
        };
        r.push(info);
        assert(r@[3 + i as int] == info);
    }
    r
}

} // verus!
