//! Role-based permissions: what each role may do, the allowlists of sample
//! paths, node kinds, plugins and assets, and the global concurrency limits.
use vstd::hash_map::StringHashMap;
use vstd::prelude::*;

use crate::text::{chars_of, string_of, to_ascii_lower, trim, trim_chars, ascii_lower};

verus! {

/// The name for what the `glob` crate decides: `pattern` compiles
/// (`glob::Pattern::new`) and the compiled pattern matches `text`.
pub uninterp spec fn glob_allows_of(pattern: Seq<char>, text: Seq<char>) -> bool;

/// Characters with a special meaning in glob patterns.
pub open spec fn has_glob_metachar(p: Seq<char>) -> bool {
    p.contains('*') || p.contains('?') || p.contains('[') || p.contains(']')
}

/// Whether glob `pattern` is valid and matches `text`.
///
/// Trusted: calls `glob::Pattern::new(pattern)` and, when that succeeds,
/// `Pattern::matches(text)`. Besides naming the outcome, the contract states
/// two facts that the crate's source shows: `*` is valid and matches every
/// text (a lone `AnySequence` token under the default options), and a
/// pattern without metacharacters compiles to literal characters compared
/// case-sensitively, so it matches exactly its own text.
#[verifier::external_body]
pub(crate) fn glob_allows(pattern: &str, text: &str) -> (r: bool)
    ensures
        r == glob_allows_of(pattern@, text@),
        pattern@ == "*"@ ==> r,
        !has_glob_metachar(pattern@) ==> (r <==> pattern@ == text@),
{
    glob::Pattern::new(pattern).ok().is_some_and(|p| p.matches(text))
}

/// Role-based permissions for access control.
#[derive(Debug)]
pub struct Permissions {
    pub create_sessions: bool,
    pub destroy_sessions: bool,
    pub list_sessions: bool,
    pub modify_sessions: bool,
    pub tune_nodes: bool,
    pub load_plugins: bool,
    pub delete_plugins: bool,
    pub list_nodes: bool,
    pub list_samples: bool,
    pub read_samples: bool,
    pub write_samples: bool,
    pub delete_samples: bool,
    /// Allowed sample pipeline paths (globs, relative to the samples dir).
    pub allowed_samples: Vec<String>,
    /// Allowed node kinds (globs such as `audio::*`).
    pub allowed_nodes: Vec<String>,
    /// Allowed plugin node kinds (globs such as `plugin::*`).
    pub allowed_plugins: Vec<String>,
    pub access_all_sessions: bool,
    pub upload_assets: bool,
    pub delete_assets: bool,
    /// Allowed asset paths (globs).
    pub allowed_assets: Vec<String>,
}

/// A role's permissions as plain values.
pub struct PermissionsView {
    pub create_sessions: bool,
    pub destroy_sessions: bool,
    pub list_sessions: bool,
    pub modify_sessions: bool,
    pub tune_nodes: bool,
    pub load_plugins: bool,
    pub delete_plugins: bool,
    pub list_nodes: bool,
    pub list_samples: bool,
    pub read_samples: bool,
    pub write_samples: bool,
    pub delete_samples: bool,
    pub allowed_samples: Seq<Seq<char>>,
    pub allowed_nodes: Seq<Seq<char>>,
    pub allowed_plugins: Seq<Seq<char>>,
    pub access_all_sessions: bool,
    pub upload_assets: bool,
    pub delete_assets: bool,
    pub allowed_assets: Seq<Seq<char>>,
}

impl View for Permissions {
    type V = PermissionsView;

    open spec fn view(&self) -> PermissionsView {
        PermissionsView {
            create_sessions: self.create_sessions,
            destroy_sessions: self.destroy_sessions,
            list_sessions: self.list_sessions,
            modify_sessions: self.modify_sessions,
            tune_nodes: self.tune_nodes,
            load_plugins: self.load_plugins,
            delete_plugins: self.delete_plugins,
            list_nodes: self.list_nodes,
            list_samples: self.list_samples,
            read_samples: self.read_samples,
            write_samples: self.write_samples,
            delete_samples: self.delete_samples,
            allowed_samples: texts(self.allowed_samples@),
            allowed_nodes: texts(self.allowed_nodes@),
            allowed_plugins: texts(self.allowed_plugins@),
            access_all_sessions: self.access_all_sessions,
            upload_assets: self.upload_assets,
            delete_assets: self.delete_assets,
            allowed_assets: texts(self.allowed_assets@),
        }
    }
}

/// The capability flags of a role, without its allowlists.
#[derive(Debug, Clone, Copy, PartialEq, Eq, Structural)]
pub struct PermissionsInfo {
    pub create_sessions: bool,
    pub destroy_sessions: bool,
    pub list_sessions: bool,
    pub modify_sessions: bool,
    pub tune_nodes: bool,
    pub load_plugins: bool,
    pub delete_plugins: bool,
    pub list_nodes: bool,
    pub list_samples: bool,
    pub read_samples: bool,
    pub write_samples: bool,
    pub delete_samples: bool,
    pub access_all_sessions: bool,
    pub upload_assets: bool,
    pub delete_assets: bool,
}

pub open spec fn texts(v: Seq<String>) -> Seq<Seq<char>> {
    v.map_values(|s: String| s@)
}

/// An allowlist admits `text` when one of its globs matches it; an empty
/// allowlist admits nothing.
pub open spec fn allowlist_admits(list: Seq<Seq<char>>, text: Seq<char>) -> bool {
    exists|i: int| 0 <= i < list.len() && glob_allows_of(#[trigger] list[i], text)
}

pub open spec fn all_flags(p: Permissions, v: bool) -> bool {
    &&& p.create_sessions == v
    &&& p.destroy_sessions == v
    &&& p.list_sessions == v
    &&& p.modify_sessions == v
    &&& p.tune_nodes == v
    &&& p.load_plugins == v
    &&& p.delete_plugins == v
    &&& p.list_nodes == v
    &&& p.list_samples == v
    &&& p.read_samples == v
    &&& p.write_samples == v
    &&& p.delete_samples == v
    &&& p.access_all_sessions == v
    &&& p.upload_assets == v
    &&& p.delete_assets == v
}

pub open spec fn user_allowed_samples() -> Seq<Seq<char>> {
    seq![
        "oneshot/*.yml"@,
        "oneshot/*.yaml"@,
        "dynamic/*.yml"@,
        "dynamic/*.yaml"@,
        "user/*.yml"@,
        "user/*.yaml"@,
    ]
}

pub open spec fn user_allowed_nodes() -> Seq<Seq<char>> {
    seq![
        "audio::*"@,
        "containers::*"@,
        "transport::moq::*"@,
        "core::passthrough"@,
        "core::file_reader"@,
        "core::pacer"@,
        "core::json_serialize"@,
        "core::text_chunker"@,
        "core::script"@,
        "core::telemetry_tap"@,
        "core::telemetry_out"@,
        "core::sink"@,
        "plugin::*"@,
    ]
}

pub open spec fn user_allowed_assets() -> Seq<Seq<char>> {
    seq!["samples/audio/system/*"@, "samples/audio/user/*"@]
}

/// The built-in `user` role.
pub open spec fn is_user_role(p: Permissions) -> bool {
    &&& p.create_sessions
    &&& p.destroy_sessions
    &&& p.list_sessions
    &&& p.modify_sessions
    &&& p.tune_nodes
    &&& !p.load_plugins
    &&& !p.delete_plugins
    &&& p.list_nodes
    &&& p.list_samples
    &&& p.read_samples
    &&& p.write_samples
    &&& p.delete_samples
    &&& !p.access_all_sessions
    &&& p.upload_assets
    &&& p.delete_assets
    &&& texts(p.allowed_samples@) == user_allowed_samples()
    &&& texts(p.allowed_nodes@) == user_allowed_nodes()
    &&& texts(p.allowed_plugins@) == seq!["plugin::*"@]
    &&& texts(p.allowed_assets@) == user_allowed_assets()
}

/// The built-in `admin` role: every capability and `*` allowlists.
pub open spec fn is_admin_role(p: Permissions) -> bool {
    &&& all_flags(p, true)
    &&& texts(p.allowed_samples@) == seq!["*"@]
    &&& texts(p.allowed_nodes@) == seq!["*"@]
    &&& texts(p.allowed_plugins@) == seq!["*"@]
    &&& texts(p.allowed_assets@) == seq!["*"@]
}

/// The permissions of an unknown role: nothing allowed.
pub open spec fn is_empty_role(p: Permissions) -> bool {
    &&& all_flags(p, false)
    &&& p.allowed_samples@.len() == 0
    &&& p.allowed_nodes@.len() == 0
    &&& p.allowed_plugins@.len() == 0
    &&& p.allowed_assets@.len() == 0
}

fn owned(s: &str) -> (r: String)
    ensures
        r@ == s@,
{
    s.to_owned()
}

fn copy_strings(v: &Vec<String>) -> (r: Vec<String>)
    ensures
        r@ == v@,
{
    let mut r: Vec<String> = Vec::new();
    for i in 0..v.len()
        invariant
            r@ == v@.take(i as int),
    {
        r.push(v[i].clone());
        assert(v@.take(i + 1) =~= v@.take(i as int).push(v@[i as int]));
    }
    assert(v@.take(v.len() as int) =~= v@);
    r
}

fn list_admits(list: &Vec<String>, text: &str) -> (r: bool)
    ensures
        r == allowlist_admits(texts(list@), text@),
        texts(list@).contains("*"@) ==> r,
{
    if list.len() == 0 {
        return false;
    }
    for i in 0..list.len()
        invariant
            forall|j: int| 0 <= j < i ==> !glob_allows_of(#[trigger] texts(list@)[j], text@),
            forall|j: int| 0 <= j < i ==> #[trigger] texts(list@)[j] != "*"@,
    {
        if glob_allows(list[i].as_str(), text) {
            assert(texts(list@)[i as int] == list@[i as int]@);
            return true;
        }
    }
    false
}

impl Clone for Permissions {
    fn clone(&self) -> (r: Self)
        ensures
            r@ == self@,
    {
        Permissions {
            create_sessions: self.create_sessions,
            destroy_sessions: self.destroy_sessions,
            list_sessions: self.list_sessions,
            modify_sessions: self.modify_sessions,
            tune_nodes: self.tune_nodes,
            load_plugins: self.load_plugins,
            delete_plugins: self.delete_plugins,
            list_nodes: self.list_nodes,
            list_samples: self.list_samples,
            read_samples: self.read_samples,
            write_samples: self.write_samples,
            delete_samples: self.delete_samples,
            allowed_samples: copy_strings(&self.allowed_samples),
            allowed_nodes: copy_strings(&self.allowed_nodes),
            allowed_plugins: copy_strings(&self.allowed_plugins),
            access_all_sessions: self.access_all_sessions,
            upload_assets: self.upload_assets,
            delete_assets: self.delete_assets,
            allowed_assets: copy_strings(&self.allowed_assets),
        }
    }
}

impl Default for Permissions {
    fn default() -> (r: Self)
        ensures
            is_empty_role(r),
    {
        Permissions {
            create_sessions: false,
            destroy_sessions: false,
            list_sessions: false,
            modify_sessions: false,
            tune_nodes: false,
            load_plugins: false,
            delete_plugins: false,
            list_nodes: false,
            list_samples: false,
            read_samples: false,
            write_samples: false,
            delete_samples: false,
            allowed_samples: Vec::new(),
            allowed_nodes: Vec::new(),
            allowed_plugins: Vec::new(),
            access_all_sessions: false,
            upload_assets: false,
            delete_assets: false,
            allowed_assets: Vec::new(),
        }
    }
}

fn wildcard_list() -> (r: Vec<String>)
    ensures
        texts(r@) == seq!["*"@],
{
    let mut v: Vec<String> = Vec::new();
    v.push(owned("*"));
    assert(texts(v@) =~= seq!["*"@]);
    v
}

impl Permissions {
    /// The admin role: full access.
    pub fn admin() -> (r: Self)
        ensures
            is_admin_role(r),
    {
        Self {
            create_sessions: true,
            destroy_sessions: true,
            list_sessions: true,
            modify_sessions: true,
            tune_nodes: true,
            load_plugins: true,
            delete_plugins: true,
            list_nodes: true,
            list_samples: true,
            read_samples: true,
            write_samples: true,
            delete_samples: true,
            allowed_samples: wildcard_list(),
            allowed_nodes: wildcard_list(),
            allowed_plugins: wildcard_list(),
            access_all_sessions: true,
            upload_assets: true,
            delete_assets: true,
            allowed_assets: wildcard_list(),
        }
    }

    /// The user role: sessions and samples, but no plugin management and
    /// only its own sessions.
    pub fn user() -> (r: Self)
        ensures
            is_user_role(r),
    {
        let mut samples: Vec<String> = Vec::new();
        samples.push(owned("oneshot/*.yml"));
        samples.push(owned("oneshot/*.yaml"));
        samples.push(owned("dynamic/*.yml"));
        samples.push(owned("dynamic/*.yaml"));
        samples.push(owned("user/*.yml"));
        samples.push(owned("user/*.yaml"));
        assert(texts(samples@) =~= user_allowed_samples());
        let mut nodes: Vec<String> = Vec::new();
        nodes.push(owned("audio::*"));
        nodes.push(owned("containers::*"));
        nodes.push(owned("transport::moq::*"));
        nodes.push(owned("core::passthrough"));
        nodes.push(owned("core::file_reader"));
        nodes.push(owned("core::pacer"));
        nodes.push(owned("core::json_serialize"));
        nodes.push(owned("core::text_chunker"));
        nodes.push(owned("core::script"));
        nodes.push(owned("core::telemetry_tap"));
        nodes.push(owned("core::telemetry_out"));
        nodes.push(owned("core::sink"));
        nodes.push(owned("plugin::*"));
        assert(texts(nodes@) =~= user_allowed_nodes());
        let mut plugins: Vec<String> = Vec::new();
        plugins.push(owned("plugin::*"));
        assert(texts(plugins@) =~= seq!["plugin::*"@]);
        let mut assets: Vec<String> = Vec::new();
        assets.push(owned("samples/audio/system/*"));
        assets.push(owned("samples/audio/user/*"));
        assert(texts(assets@) =~= user_allowed_assets());
        Self {
            create_sessions: true,
            destroy_sessions: true,
            list_sessions: true,
            modify_sessions: true,
            tune_nodes: true,
            load_plugins: false,
            delete_plugins: false,
            list_nodes: true,
            list_samples: true,
            read_samples: true,
            write_samples: true,
            delete_samples: true,
            allowed_samples: samples,
            allowed_nodes: nodes,
            allowed_plugins: plugins,
            access_all_sessions: false,
            upload_assets: true,
            delete_assets: true,
            allowed_assets: assets,
        }
    }

    /// The capability flags, without the allowlists.
    pub fn to_info(&self) -> (r: PermissionsInfo)
        ensures
            r.create_sessions == self.create_sessions,
            r.destroy_sessions == self.destroy_sessions,
            r.list_sessions == self.list_sessions,
            r.modify_sessions == self.modify_sessions,
            r.tune_nodes == self.tune_nodes,
            r.load_plugins == self.load_plugins,
            r.delete_plugins == self.delete_plugins,
            r.list_nodes == self.list_nodes,
            r.list_samples == self.list_samples,
            r.read_samples == self.read_samples,
            r.write_samples == self.write_samples,
            r.delete_samples == self.delete_samples,
            r.access_all_sessions == self.access_all_sessions,
            r.upload_assets == self.upload_assets,
            r.delete_assets == self.delete_assets,
    {
        PermissionsInfo {
            create_sessions: self.create_sessions,
            destroy_sessions: self.destroy_sessions,
            list_sessions: self.list_sessions,
            modify_sessions: self.modify_sessions,
            tune_nodes: self.tune_nodes,
            load_plugins: self.load_plugins,
            delete_plugins: self.delete_plugins,
            list_nodes: self.list_nodes,
            list_samples: self.list_samples,
            read_samples: self.read_samples,
            write_samples: self.write_samples,
            delete_samples: self.delete_samples,
            access_all_sessions: self.access_all_sessions,
            upload_assets: self.upload_assets,
            delete_assets: self.delete_assets,
        }
    }

    /// Whether a sample pipeline path is allowed.
    pub fn is_sample_allowed(&self, path: &str) -> (r: bool)
        ensures
            r == allowlist_admits(texts(self.allowed_samples@), path@),
            self.allowed_samples@.len() == 0 ==> !r,
            texts(self.allowed_samples@).contains("*"@) ==> r,
    {
        list_admits(&self.allowed_samples, path)
    }

    /// Whether a node kind is allowed.
    pub fn is_node_allowed(&self, node_type: &str) -> (r: bool)
        ensures
            r == allowlist_admits(texts(self.allowed_nodes@), node_type@),
            self.allowed_nodes@.len() == 0 ==> !r,
            texts(self.allowed_nodes@).contains("*"@) ==> r,
    {
        list_admits(&self.allowed_nodes, node_type)
    }

    /// Whether a plugin node kind is allowed.
    pub fn is_plugin_allowed(&self, plugin_name: &str) -> (r: bool)
        ensures
            r == allowlist_admits(texts(self.allowed_plugins@), plugin_name@),
            self.allowed_plugins@.len() == 0 ==> !r,
            texts(self.allowed_plugins@).contains("*"@) ==> r,
    {
        list_admits(&self.allowed_plugins, plugin_name)
    }

    /// Whether an asset path is allowed.
    pub fn is_asset_allowed(&self, path: &str) -> (r: bool)
        ensures
            r == allowlist_admits(texts(self.allowed_assets@), path@),
            self.allowed_assets@.len() == 0 ==> !r,
            texts(self.allowed_assets@).contains("*"@) ==> r,
    {
        list_admits(&self.allowed_assets, path)
    }

    /// Whether a caller of role `role` may see or act on a session created
    /// by `created_by` (`None` for sessions that record no creator).
    pub fn may_access_session(&self, created_by: Option<&str>, role: &str) -> (r: bool)
        ensures
            r == (self.access_all_sessions || match created_by {
                None => true,
                Some(c) => c@ == role@,
            }),
    {
        if self.access_all_sessions {
            return true;
        }
        match created_by {
            None => true,
            Some(c) => {
                let cv = chars_of(c);
                let rv = chars_of(role);
                crate::text::chars_equal(&cv, &rv)
            },
        }
    }
}

/// The permission section of the server configuration.
pub struct PermissionsConfig {
    /// Role for requests that no auth layer assigns a role.
    pub default_role: String,
    /// Trusted header that selects the role, if any.
    pub role_header: Option<String>,
    pub allow_insecure_no_auth: bool,
    /// Role name -> permissions.
    pub roles: StringHashMap<Permissions>,
    /// Global limit on concurrent dynamic sessions (`None`: unlimited).
    pub max_concurrent_sessions: Option<usize>,
    /// Global limit on concurrent oneshot pipelines (`None`: unlimited).
    pub max_concurrent_oneshots: Option<usize>,
}

/// The name of the default role.
pub fn default_default_role() -> (r: String)
    ensures
        r@ == "admin"@,
{
    owned("admin")
}

/// The built-in roles: `admin` and `user`.
pub fn default_roles() -> (r: StringHashMap<Permissions>)
    ensures
        r@.dom() == set!["admin"@, "user"@],
        is_admin_role(r@["admin"@]),
        is_user_role(r@["user"@]),
{
    let mut roles: StringHashMap<Permissions> = StringHashMap::new();
    roles.insert(owned("admin"), Permissions::admin());
    roles.insert(owned("user"), Permissions::user());
    proof {
        reveal_strlit("admin");
        reveal_strlit("user");
        assert("admin"@.len() != "user"@.len());
    }
    assert(roles@.dom() =~= set!["admin"@, "user"@]);
    roles
}

/// What `get_role` yields for a role name.
pub open spec fn role_lookup(roles: Map<Seq<char>, Permissions>, default_role: Seq<char>, name: Seq<
    char,
>) -> Option<Permissions> {
    if roles.contains_key(name) {
        Some(roles[name])
    } else if roles.contains_key(default_role) {
        Some(roles[default_role])
    } else {
        None
    }
}

impl Default for PermissionsConfig {
    fn default() -> (r: Self)
        ensures
            r.default_role@ == "admin"@,
            r.role_header is None,
            !r.allow_insecure_no_auth,
            r.roles@.dom() == set!["admin"@, "user"@],
            is_admin_role(r.roles@["admin"@]),
            is_user_role(r.roles@["user"@]),
            r.max_concurrent_sessions is None,
            r.max_concurrent_oneshots is None,
    {
        Self {
            default_role: default_default_role(),
            role_header: None,
            allow_insecure_no_auth: false,
            roles: default_roles(),
            max_concurrent_sessions: None,
            max_concurrent_oneshots: None,
        }
    }
}

impl PermissionsConfig {
    /// The permissions of role `role_name`, falling back to the default
    /// role, and to no permissions at all when neither is configured.
    pub fn get_role(&self, role_name: &str) -> (r: Permissions)
        ensures
            match role_lookup(self.roles@, self.default_role@, role_name@) {
                Some(p) => r@ == p@,
                None => is_empty_role(r),
            },
    {
        match self.roles.get(role_name) {
            Some(perms) => perms.clone(),
            None => match self.roles.get(self.default_role.as_str()) {
                Some(perms) => perms.clone(),
                None => Permissions::default(),
            },
        }
    }

    /// The permissions of the default role.
    pub fn get_default(&self) -> (r: Permissions)
        ensures
            match role_lookup(self.roles@, self.default_role@, self.default_role@) {
                Some(p) => r@ == p@,
                None => is_empty_role(r),
            },
    {
        self.get_role(self.default_role.as_str())
    }

    /// Whether a new session fits under the global session limit.
    pub fn can_accept_session(&self, current_count: usize) -> (r: bool)
        ensures
            r == match self.max_concurrent_sessions {
                None => true,
                Some(max) => current_count < max,
            },
    {
        match self.max_concurrent_sessions {
            None => true,
            Some(max) => current_count < max,
        }
    }

    /// Whether a new oneshot pipeline fits under the global oneshot limit.
    pub fn can_accept_oneshot(&self, current_count: usize) -> (r: bool)
        ensures
            r == match self.max_concurrent_oneshots {
                None => true,
                Some(max) => current_count < max,
            },
    {
        match self.max_concurrent_oneshots {
            None => true,
            Some(max) => current_count < max,
        }
    }

    /// The trusted role header, normalized for header lookups (trimmed and
    /// ASCII lower-cased).
    pub fn normalized_role_header(&self) -> (r: Option<String>)
        ensures
            match self.role_header {
                None => r is None,
                Some(h) => r matches Some(n) && n@ == ascii_lower(trim(h@)),
            },
    {
        match &self.role_header {
            None => None,
            Some(h) => {
                let v = chars_of(h.as_str());
                let t = trim_chars(&v);
                let l = to_ascii_lower(&t);
                Some(string_of(&l))
            },
        }
    }
}

/// The role a request acts as: the trusted header's value when one was
/// sent, else the `SK_ROLE` environment value, else the default role.
pub fn resolve_role_name(header_value: Option<&str>, env_role: Option<&str>, default_role: &str) -> (r:
    String)
    ensures
        r@ == match header_value {
            Some(h) => h@,
            None => match env_role {
                Some(e) => e@,
                None => default_role@,
            },
        },
{
    match header_value {
        Some(h) => owned(h),
        None => match env_role {
            Some(e) => owned(e),
            None => owned(default_role),
        },
    }
}

/// The asset allowlist after adding the patterns of registered plugin asset
/// types: each type's system pattern, and its user pattern for roles that
/// may upload; patterns already present are not repeated.
pub open spec fn augmented_assets(
    assets: Seq<Seq<char>>,
    upload: bool,
    patterns: Seq<(Seq<char>, Seq<char>)>,
) -> Seq<Seq<char>>
    decreases patterns.len(),
{
    if patterns.len() == 0 {
        assets
    } else {
        let before = augmented_assets(assets, upload, patterns.drop_last());
        let (sys, user) = patterns.last();
        let with_sys = if before.contains(sys) {
            before
        } else {
            before.push(sys)
        };
        if upload && !with_sys.contains(user) {
            with_sys.push(user)
        } else {
            with_sys
        }
    }
}

/// Whether a registered `(system, user)` pattern pair grants `x`: its
/// system pattern always, its user pattern when the role may upload.
pub open spec fn pattern_grants(pair: (Seq<char>, Seq<char>), upload: bool, x: Seq<char>) -> bool {
    pair.0 == x || (upload && pair.1 == x)
}

/// After augmentation a pattern is allowed exactly when it was allowed
/// before, is the system pattern of a registered type, or is the user
/// pattern of a registered type and the role may upload; nothing that was
/// allowed is lost.
pub proof fn law_augmented_assets_members(
    assets: Seq<Seq<char>>,
    upload: bool,
    patterns: Seq<(Seq<char>, Seq<char>)>,
    x: Seq<char>,
)
    ensures
        augmented_assets(assets, upload, patterns).contains(x) <==> (assets.contains(x) || exists|k: int|
            0 <= k < patterns.len() && pattern_grants(#[trigger] patterns[k], upload, x)),
    decreases patterns.len(),
{
    if patterns.len() > 0 {
        let prev = patterns.drop_last();
        law_augmented_assets_members(assets, upload, prev, x);
        let before = augmented_assets(assets, upload, prev);
        let (sys, user) = patterns.last();
        let with_sys = if before.contains(sys) {
            before
        } else {
            before.push(sys)
        };
        let after = augmented_assets(assets, upload, patterns);
        assert(with_sys.contains(x) <==> (before.contains(x) || x == sys)) by {
            if !before.contains(sys) {
                if with_sys.contains(x) {
                    let j = choose|j: int| 0 <= j < with_sys.len() && with_sys[j] == x;
                    if j < before.len() {
                        assert(before[j] == x);
                    }
                }
                if before.contains(x) {
                    let j = choose|j: int| 0 <= j < before.len() && before[j] == x;
                    assert(with_sys[j] == x);
                }
                assert(with_sys[before.len() as int] == sys);
            }
        }
        assert(after.contains(x) <==> (with_sys.contains(x) || (upload && x == user))) by {
            if !with_sys.contains(user) && upload {
                if after.contains(x) {
                    let j = choose|j: int| 0 <= j < after.len() && after[j] == x;
                    if j < with_sys.len() {
                        assert(with_sys[j] == x);
                    }
                }
                if with_sys.contains(x) {
                    let j = choose|j: int| 0 <= j < with_sys.len() && with_sys[j] == x;
                    assert(after[j] == x);
                }
                assert(after[with_sys.len() as int] == user);
            }
        }
        let last = patterns.len() - 1;
        assert(patterns[last] == (sys, user));
        assert(prev.len() == last);
        assert forall|k: int| 0 <= k < last implies #[trigger] prev[k] == patterns[k] by {}
        if exists|k: int| 0 <= k < patterns.len() && pattern_grants(#[trigger] patterns[k], upload, x) {
            let k = choose|k: int| 0 <= k < patterns.len() && pattern_grants(#[trigger] patterns[k], upload, x);
            if k < last {
                assert(prev[k] == patterns[k]);
            }
        }
        if exists|k: int| 0 <= k < prev.len() && pattern_grants(#[trigger] prev[k], upload, x) {
            let k = choose|k: int| 0 <= k < prev.len() && pattern_grants(#[trigger] prev[k], upload, x);
            assert(prev[k] == patterns[k]);
        }
    }
}

pub open spec fn pattern_texts(v: Seq<(String, String)>) -> Seq<(Seq<char>, Seq<char>)> {
    v.map_values(|p: (String, String)| (p.0@, p.1@))
}

fn contains_string(v: &Vec<String>, s: &String) -> (r: bool)
    ensures
        r == texts(v@).contains(s@),
{
    let sv = chars_of(s.as_str());
    for i in 0..v.len()
        invariant
            sv@ == s@,
            forall|j: int| 0 <= j < i ==> texts(v@)[j] != s@,
    {
        let e = chars_of(v[i].as_str());
        if crate::text::chars_equal(&e, &sv) {
            assert(texts(v@)[i as int] == s@);
            return true;
        }
    }
    false
}

fn augment_list(assets: &mut Vec<String>, upload: bool, patterns: &Vec<(String, String)>)
    ensures
        texts(final(assets)@) == augmented_assets(
            texts(old(assets)@),
            upload,
            pattern_texts(patterns@),
        ),
{
    let ghost start = texts(assets@);
    for i in 0..patterns.len()
        invariant
            texts(assets@) == augmented_assets(start, upload, pattern_texts(patterns@).take(i as int)),
            start == texts(old(assets)@),
    {
        let ghost prefix = pattern_texts(patterns@).take(i as int);
        assert(pattern_texts(patterns@).take(i + 1).drop_last() =~= prefix);
        assert(pattern_texts(patterns@).take(i + 1).last() == (
            patterns@[i as int].0@,
            patterns@[i as int].1@,
        ));
        let (system_pattern, user_pattern) = &patterns[i];
        if !contains_string(assets, system_pattern) {
            let ghost mid = texts(assets@);
            assets.push(system_pattern.clone());
            assert(texts(assets@) =~= mid.push(system_pattern@));
        }
        if upload && !contains_string(assets, user_pattern) {
            let ghost mid = texts(assets@);
            assets.push(user_pattern.clone());
            assert(texts(assets@) =~= mid.push(user_pattern@));
        }
    }
    assert(pattern_texts(patterns@).take(patterns.len() as int) =~= pattern_texts(patterns@));
}

/// Adds the permission patterns of registered plugin asset types to a role.
pub fn augment_plugin_asset_permissions(perms: &mut Permissions, patterns: &Vec<(String, String)>)
    ensures
        final(perms)@ == (PermissionsView {
            allowed_assets: augmented_assets(
                old(perms)@.allowed_assets,
                old(perms).upload_assets,
                pattern_texts(patterns@),
            ),
            ..old(perms)@
        }),
{
    let upload = perms.upload_assets;
    augment_list(&mut perms.allowed_assets, upload, patterns);
}

/// The permissions of a role with no entry: nothing allowed.
pub open spec fn empty_permissions_view() -> PermissionsView {
    PermissionsView {
        create_sessions: false,
        destroy_sessions: false,
        list_sessions: false,
        modify_sessions: false,
        tune_nodes: false,
        load_plugins: false,
        delete_plugins: false,
        list_nodes: false,
        list_samples: false,
        read_samples: false,
        write_samples: false,
        delete_samples: false,
        allowed_samples: Seq::empty(),
        allowed_nodes: Seq::empty(),
        allowed_plugins: Seq::empty(),
        access_all_sessions: false,
        upload_assets: false,
        delete_assets: false,
        allowed_assets: Seq::empty(),
    }
}

/// The permissions a request acting as `role` has: the role's entry (or
/// the default role's, or none), with the asset patterns of the registered
/// plugin asset types added.
pub open spec fn request_permissions(
    config: PermissionsConfig,
    role: Seq<char>,
    patterns: Seq<(Seq<char>, Seq<char>)>,
) -> PermissionsView {
    let base = match role_lookup(config.roles@, config.default_role@, role) {
        Some(p) => p@,
        None => empty_permissions_view(),
    };
    PermissionsView { allowed_assets: augmented_assets(base.allowed_assets, base.upload_assets, patterns), ..base }
}

/// The role of a request and its permissions. The role is the trusted
/// header's value when one was sent (`header_value`), else the `SK_ROLE`
/// environment value (`env_role`), else the configured default role.
pub fn get_role_and_permissions(
    config: &PermissionsConfig,
    header_value: Option<&str>,
    env_role: Option<&str>,
    patterns: &Vec<(String, String)>,
) -> (r: (String, Permissions))
    ensures
        r.0@ == match header_value {
            Some(h) => h@,
            None => match env_role {
                Some(e) => e@,
                None => config.default_role@,
            },
        },
        r.1@ == request_permissions(*config, r.0@, pattern_texts(patterns@)),
{
    let role = resolve_role_name(header_value, env_role, config.default_role.as_str());
    let mut perms = config.get_role(role.as_str());
    proof {
        if role_lookup(config.roles@, config.default_role@, role@) is None {
            assert(perms@.allowed_samples =~= Seq::<Seq<char>>::empty());
            assert(perms@.allowed_nodes =~= Seq::<Seq<char>>::empty());
            assert(perms@.allowed_plugins =~= Seq::<Seq<char>>::empty());
            assert(perms@.allowed_assets =~= Seq::<Seq<char>>::empty());
            assert(perms@ == empty_permissions_view());
        }
    }
    augment_plugin_asset_permissions(&mut perms, patterns);
    (role, perms)
}

/// The permissions of a request (its role resolved as by
/// `get_role_and_permissions`).
pub fn get_permissions(
    config: &PermissionsConfig,
    header_value: Option<&str>,
    env_role: Option<&str>,
    patterns: &Vec<(String, String)>,
) -> (r: Permissions)
    ensures
        r@ == request_permissions(
            *config,
            match header_value {
                Some(h) => h@,
                None => match env_role {
                    Some(e) => e@,
                    None => config.default_role@,
                },
            },
            pattern_texts(patterns@),
        ),
{
    let (_role, perms) = get_role_and_permissions(config, header_value, env_role, patterns);
    perms
}

} // verus!
