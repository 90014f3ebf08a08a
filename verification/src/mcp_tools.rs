//! The rules of the MCP tools: the arguments each tool takes, who may call
//! it, which sessions and node kinds a caller sees, and how the arguments
//! select what the tool does. The transport and the engine calls are the
//! server's.
use vstd::prelude::*;

use crate::oneshot::{
    cli_command, curl_command, generate_curl_command, generate_skit_cli_command,
    heredoc_available, GenerateOneshotCommandArgs,
};
use crate::permissions::{allowlist_admits, texts, Permissions, PermissionsConfig};
use crate::session_rules::{check_dynamic_pipeline_nodes, dynamic_node_refusal, pair_texts};
use crate::text::{extend_str, has_prefix, str_equal, string_of, chars_of, starts_with};

verus! {

/// Arguments of `validate_pipeline`.
#[derive(Debug, Clone)]
pub struct ValidatePipelineArgs {
    pub yaml: String,
    /// `dynamic` or `oneshot`, when given.
    pub mode: Option<String>,
}

/// Arguments of `create_session`.
#[derive(Debug, Clone)]
pub struct CreateSessionArgs {
    pub yaml: String,
    pub name: Option<String>,
}

/// Arguments of the tools that act on one session.
#[derive(Debug, Clone)]
pub struct SessionIdArgs {
    /// Session ID or name.
    pub session_id: String,
}

/// Arguments of `get_logs`.
#[derive(Debug, Clone)]
pub struct GetLogsArgs {
    /// Lines to return (default 100, at most 500).
    pub limit: Option<usize>,
    pub level: Option<String>,
    pub filter: Option<String>,
}

/// Arguments of `list_samples`.
#[derive(Debug, Clone)]
pub struct ListSamplesArgs {
    /// `oneshot`, `dynamic`, or absent for all.
    pub mode: Option<String>,
}

/// Arguments of `get_node_definition`.
#[derive(Debug, Clone)]
pub struct GetNodeDefinitionArgs {
    pub kind: String,
}

/// Arguments of `update_pipeline`.
#[derive(Debug, Clone)]
pub struct UpdatePipelineArgs {
    pub session_id: String,
    /// The desired pipeline.
    pub yaml: String,
}

/// Arguments of the `design_pipeline` prompt.
#[derive(Debug, Clone)]
pub struct DesignPipelinePromptArgs {
    pub description: Option<String>,
}

/// Arguments of the `debug_pipeline` prompt.
#[derive(Debug, Clone)]
pub struct DebugPipelinePromptArgs {
    pub session_id: String,
}

/// How a tool call is refused, by the kind of MCP error it is answered with.
#[derive(Debug, Clone)]
pub enum ToolError {
    InvalidRequest(String),
    InvalidParams(String),
    Internal(String),
}

fn concat3(a: &str, b: &str, c: &str) -> (r: String)
    ensures
        r@ == a@ + b@ + c@,
{
    let mut m: Vec<char> = Vec::new();
    extend_str(&mut m, a);
    extend_str(&mut m, b);
    extend_str(&mut m, c);
    string_of(&m)
}

/// Whether a caller of `role` sees a session created by `created_by`.
pub open spec fn session_visible(perms: Permissions, role: Seq<char>, created_by: Option<Seq<char>>) -> bool {
    perms.access_all_sessions || match created_by {
        None => true,
        Some(c) => c == role,
    }
}

pub open spec fn opt_seq(o: Option<String>) -> Option<Seq<char>> {
    match o {
        Some(s) => Some(s@),
        None => None,
    }
}

/// Checks a call on a session by name or id: the tool's permission
/// (`granted`, named `perm_label` in the refusal) first, then that the
/// session exists (`session` is the creator recorded by the session found,
/// if one was), then that the caller sees it.
pub fn check_session_access(
    perms: &Permissions,
    role: &str,
    granted: bool,
    perm_label: &str,
    session_id: &str,
    session: Option<Option<String>>,
) -> (r: Result<(), ToolError>)
    ensures
        !granted ==> (r matches Err(ToolError::InvalidRequest(m)) && m@ == "Permission denied: "@
            + perm_label@ + " required"@),
        granted && session is None ==> (r matches Err(ToolError::InvalidParams(m)) && m@
            == "Session '"@ + session_id@ + "' not found"@),
        granted && session is Some && !session_visible(*perms, role@, opt_seq(session->0)) ==> (
        r matches Err(ToolError::InvalidRequest(m)) && m@
            == "Permission denied: you do not own this session"@),
        granted && session is Some && session_visible(*perms, role@, opt_seq(session->0)) ==> r is Ok,
{
    if !granted {
        return Err(ToolError::InvalidRequest(concat3("Permission denied: ", perm_label, " required")));
    }
    match session {
        None => Err(ToolError::InvalidParams(concat3("Session '", session_id, "' not found"))),
        Some(created_by) => {
            let visible = match &created_by {
                Some(c) => perms.may_access_session(Some(c.as_str()), role),
                None => perms.may_access_session(None, role),
            };
            if !visible {
                Err(ToolError::InvalidRequest("Permission denied: you do not own this session".to_owned()))
            } else {
                Ok(())
            }
        },
    }
}

/// Checks the nodes `(id, kind)` of the pipeline that `create_session`
/// compiled: it has some, and each passes the dynamic-session rules. A
/// pipeline that is empty or holds a one-shot marker is refused as invalid
/// parameters, a kind or plugin that is not allowed as an invalid request.
pub fn check_session_nodes(perms: &Permissions, nodes: &Vec<(String, String)>) -> (r: Result<(), ToolError>)
    ensures
        nodes@.len() == 0 ==> (r matches Err(ToolError::InvalidParams(m)) && m@
            == "Pipeline is empty. Add some nodes before creating a session."@),
        nodes@.len() > 0 ==> match dynamic_node_refusal(*perms, pair_texts(nodes@)) {
            None => r is Ok,
            Some((status, message)) => if status == 400 {
                r matches Err(ToolError::InvalidParams(m)) && m@ == message
            } else {
                r matches Err(ToolError::InvalidRequest(m)) && m@ == message
            },
        },
{
    match check_dynamic_pipeline_nodes(perms, nodes) {
        Ok(()) => Ok(()),
        Err(e) => if e.status == 400 {
            Err(ToolError::InvalidParams(e.message))
        } else {
            Err(ToolError::InvalidRequest(e.message))
        },
    }
}

/// Checks, before `create_session` builds a session, that its name (if it
/// has one) is free and that one more session fits under the limit.
pub fn check_session_slot(
    config: &PermissionsConfig,
    name: Option<&str>,
    name_taken: bool,
    current_count: usize,
) -> (r: Result<(), ToolError>)
    ensures
        name is Some && name_taken ==> (r matches Err(ToolError::InvalidRequest(m)) && m@ == "Session with name '"@
            + name->0@ + "' already exists"@),
        !(name is Some && name_taken) && !(match config.max_concurrent_sessions {
            None => true,
            Some(max) => current_count < max,
        }) ==> (r matches Err(ToolError::InvalidRequest(m)) && m@ == "Maximum concurrent sessions limit reached"@),
        !(name is Some && name_taken) && (match config.max_concurrent_sessions {
            None => true,
            Some(max) => current_count < max,
        }) ==> r is Ok,
{
    if let Some(n) = name {
        if name_taken {
            return Err(ToolError::InvalidRequest(concat3("Session with name '", n, "' already exists")));
        }
    }
    if !config.can_accept_session(current_count) {
        return Err(ToolError::InvalidRequest("Maximum concurrent sessions limit reached".to_owned()));
    }
    Ok(())
}

/// A permission check with a fixed refusal.
pub fn require(granted: bool, message: &str) -> (r: Result<(), ToolError>)
    ensures
        granted ==> r is Ok,
        !granted ==> (r matches Err(ToolError::InvalidRequest(m)) && m@ == message@),
{
    if granted {
        Ok(())
    } else {
        Err(ToolError::InvalidRequest(message.to_owned()))
    }
}

/// Whether a caller sees a node kind: the kind is allowed, and a plugin
/// kind (`plugin::...`) is also an allowed plugin.
pub open spec fn node_kind_visible(perms: Permissions, kind: Seq<char>) -> bool {
    &&& allowlist_admits(texts(perms.allowed_nodes@), kind)
    &&& has_prefix(kind, "plugin::"@) ==> allowlist_admits(texts(perms.allowed_plugins@), kind)
}

/// Whether a caller sees a node kind.
pub fn is_node_kind_visible(perms: &Permissions, kind: &str) -> (r: bool)
    ensures
        r == node_kind_visible(*perms, kind@),
{
    if !perms.is_node_allowed(kind) {
        return false;
    }
    let k = chars_of(kind);
    let p = chars_of("plugin::");
    if starts_with(&k, &p) {
        return perms.is_plugin_allowed(kind);
    }
    true
}

/// The positions of the node kinds a caller sees, in order.
pub fn visible_node_kinds(perms: &Permissions, kinds: &Vec<String>) -> (r: Vec<usize>)
    ensures
        r@.len() <= kinds@.len(),
        forall|k: int| 0 <= k < r@.len() ==> (#[trigger] r@[k]) < kinds@.len(),
        forall|a: int, b: int| 0 <= a < b < r@.len() ==> r@[a] < r@[b],
        forall|i: int|
            0 <= i < kinds@.len() ==> (node_kind_visible(*perms, #[trigger] kinds@[i]@) <==> r@.contains(
                i as usize,
            )),
{
    let mut r: Vec<usize> = Vec::new();
    for i in 0..kinds.len()
        invariant
            r@.len() <= i,
            forall|k: int| 0 <= k < r@.len() ==> (#[trigger] r@[k]) < i,
            forall|a: int, b: int| 0 <= a < b < r@.len() ==> r@[a] < r@[b],
            forall|j: int| 0 <= j < i ==> (node_kind_visible(*perms, #[trigger] kinds@[j]@) <==> r@.contains(j as usize)),
    {
        let ghost before = r@;
        if is_node_kind_visible(perms, kinds[i].as_str()) {
            r.push(i);
            assert(r@[r@.len() - 1] == i);
            assert forall|j: int| 0 <= j < i implies (node_kind_visible(*perms, #[trigger] kinds@[j]@) <==> r@.contains(j as usize)) by {
                if before.contains(j as usize) {
                    let k = choose|k: int| 0 <= k < before.len() && before[k] == j as usize;
                    assert(r@[k] == j as usize);
                }
                if r@.contains(j as usize) {
                    let k = choose|k: int| 0 <= k < r@.len() && r@[k] == j as usize;
                    if k < before.len() {
                        assert(before[k] == j as usize);
                    }
                }
            }
        } else {
            assert(!r@.contains(i));
        }
    }
    r
}

/// Checks a `get_node_definition` call for a kind.
pub fn check_node_definition_access(perms: &Permissions, kind: &str) -> (r: Result<(), ToolError>)
    ensures
        !allowlist_admits(texts(perms.allowed_nodes@), kind@) ==> (r matches Err(
            ToolError::InvalidRequest(m),
        ) && m@ == "Permission denied: node kind '"@ + kind@ + "' is not allowed"@),
        allowlist_admits(texts(perms.allowed_nodes@), kind@) && !node_kind_visible(*perms, kind@) ==> (
        r matches Err(ToolError::InvalidRequest(m)) && m@ == "Permission denied: plugin '"@ + kind@
            + "' is not allowed"@),
        node_kind_visible(*perms, kind@) ==> r is Ok,
{
    if !perms.is_node_allowed(kind) {
        return Err(ToolError::InvalidRequest(concat3("Permission denied: node kind '", kind, "' is not allowed")));
    }
    let k = chars_of(kind);
    let p = chars_of("plugin::");
    if starts_with(&k, &p) && !perms.is_plugin_allowed(kind) {
        return Err(ToolError::InvalidRequest(concat3("Permission denied: plugin '", kind, "' is not allowed")));
    }
    Ok(())
}

/// The mode a pipeline is validated for.
#[derive(Debug, Clone, Copy, PartialEq, Eq, Structural)]
pub enum PipelineMode {
    Dynamic,
    Oneshot,
}

/// Reads the `mode` argument of `validate_pipeline`.
pub fn parse_validation_mode(mode: Option<&str>) -> (r: Result<Option<PipelineMode>, ToolError>)
    ensures
        mode is None ==> r == Ok::<Option<PipelineMode>, ToolError>(None),
        mode matches Some(m) ==> (m@ == "dynamic"@ ==> r == Ok::<Option<PipelineMode>, ToolError>(
            Some(PipelineMode::Dynamic),
        )),
        mode matches Some(m) ==> (m@ == "oneshot"@ ==> r == Ok::<Option<PipelineMode>, ToolError>(
            Some(PipelineMode::Oneshot),
        )),
        mode matches Some(m) ==> (m@ != "dynamic"@ && m@ != "oneshot"@ ==> (r matches Err(
            ToolError::InvalidParams(e),
        ) && e@ == "Invalid mode '"@ + m@ + "'. Must be 'dynamic' or 'oneshot'."@)),
{
    proof {
        reveal_strlit("dynamic");
        reveal_strlit("oneshot");
        assert("dynamic"@[0] != "oneshot"@[0]);
    }
    match mode {
        None => Ok(None),
        Some(m) => {
            if str_equal(m, "dynamic") {
                Ok(Some(PipelineMode::Dynamic))
            } else if str_equal(m, "oneshot") {
                Ok(Some(PipelineMode::Oneshot))
            } else {
                Err(ToolError::InvalidParams(concat3("Invalid mode '", m, "'. Must be 'dynamic' or 'oneshot'.")))
            }
        },
    }
}

/// The positions of the samples `list_samples` returns for a `mode`
/// argument, given each sample's mode.
pub fn select_samples(mode: Option<&str>, sample_modes: &Vec<String>) -> (r: Result<Vec<usize>, ToolError>)
    ensures
        mode is None ==> (r matches Ok(v) && v@ == Seq::new(sample_modes@.len(), |i: int| i as usize)),
        mode matches Some(m) ==> ((m@ == "oneshot"@ || m@ == "dynamic"@) ==> (r matches Ok(v) && (forall|
            i: int,
        | 0 <= i < sample_modes@.len() ==> (sample_modes@[i]@ == m@ <==> v@.contains(i as usize)))
            && (forall|a: int, b: int| 0 <= a < b < v@.len() ==> v@[a] < v@[b]) && (forall|k: int|
            0 <= k < v@.len() ==> (#[trigger] v@[k]) < sample_modes@.len()))),
        mode matches Some(m) ==> (m@ != "oneshot"@ && m@ != "dynamic"@ ==> (r matches Err(
            ToolError::InvalidParams(e),
        ) && e@ == "Invalid mode '"@ + m@ + "'. Must be 'oneshot' or 'dynamic'."@)),
{
    match mode {
        None => {
            let mut v: Vec<usize> = Vec::new();
            for i in 0..sample_modes.len()
                invariant
                    v@ == Seq::new(i as nat, |k: int| k as usize),
            {
                v.push(i);
                assert(v@ =~= Seq::new((i + 1) as nat, |k: int| k as usize));
            }
            Ok(v)
        },
        Some(m) => {
            if !str_equal(m, "oneshot") && !str_equal(m, "dynamic") {
                return Err(ToolError::InvalidParams(concat3("Invalid mode '", m, "'. Must be 'oneshot' or 'dynamic'.")));
            }
            let mut v: Vec<usize> = Vec::new();
            for i in 0..sample_modes.len()
                invariant
                    forall|k: int| 0 <= k < v@.len() ==> (#[trigger] v@[k]) < i,
                    forall|a: int, b: int| 0 <= a < b < v@.len() ==> v@[a] < v@[b],
                    forall|j: int| 0 <= j < i ==> (sample_modes@[j]@ == m@ <==> v@.contains(j as usize)),
            {
                let ghost before = v@;
                if str_equal(sample_modes[i].as_str(), m) {
                    v.push(i);
                    assert forall|j: int| 0 <= j < i + 1 implies (sample_modes@[j]@ == m@ <==> v@.contains(j as usize)) by {
                        if j < i {
                            if before.contains(j as usize) {
                                let k = choose|k: int| 0 <= k < before.len() && before[k] == j as usize;
                                assert(v@[k] == j as usize);
                            }
                            if v@.contains(j as usize) {
                                let k = choose|k: int| 0 <= k < v@.len() && v@[k] == j as usize;
                                if k < before.len() {
                                    assert(before[k] == j as usize);
                                }
                            }
                        } else {
                            assert(v@[v@.len() - 1] == i);
                        }
                    }
                } else {
                    assert(!v@.contains(i));
                }
            }
            Ok(v)
        },
    }
}

/// The default and the largest number of log lines `get_logs` returns.
pub const DEFAULT_LOG_LIMIT: usize = 100;
pub const MAX_LOG_LIMIT: usize = 500;

/// Checks a `get_logs` call and gives the number of lines to read: only
/// callers that see all sessions, and only with file logging on.
pub fn check_get_logs(perms: &Permissions, file_logging: bool, limit: Option<usize>) -> (r: Result<usize, ToolError>)
    ensures
        !perms.access_all_sessions ==> (r matches Err(ToolError::InvalidRequest(m)) && m@
            == "Permission denied: access_all_sessions required"@),
        perms.access_all_sessions && !file_logging ==> (r matches Err(ToolError::InvalidRequest(m))
            && m@ == "File logging is not enabled. Set log.file_enable = true in server config."@),
        perms.access_all_sessions && file_logging ==> r == Ok::<usize, ToolError>(
            match limit {
                Some(l) => if l < MAX_LOG_LIMIT {
                    l
                } else {
                    MAX_LOG_LIMIT
                },
                None => DEFAULT_LOG_LIMIT,
            },
        ),
{
    if !perms.access_all_sessions {
        return Err(ToolError::InvalidRequest("Permission denied: access_all_sessions required".to_owned()));
    }
    if !file_logging {
        return Err(
            ToolError::InvalidRequest(
                "File logging is not enabled. Set log.file_enable = true in server config.".to_owned(),
            ),
        );
    }
    let l = match limit {
        Some(l) => l,
        None => DEFAULT_LOG_LIMIT,
    };
    if l < MAX_LOG_LIMIT {
        Ok(l)
    } else {
        Ok(MAX_LOG_LIMIT)
    }
}

/// Checks a `get_server_info` call: viewers are refused.
pub fn check_server_info(role: &str) -> (r: Result<(), ToolError>)
    ensures
        role@ == "viewer"@ ==> (r matches Err(ToolError::InvalidRequest(m)) && m@
            == "Permission denied: viewers cannot access server info"@),
        role@ != "viewer"@ ==> r is Ok,
{
    if str_equal(role, "viewer") {
        Err(ToolError::InvalidRequest("Permission denied: viewers cannot access server info".to_owned()))
    } else {
        Ok(())
    }
}

/// The command `generate_oneshot_command` returns for a pipeline that
/// validated: `curl` by default, or the CLI; against `http://localhost:4545`
/// unless a server is named.
pub fn oneshot_command(args: &GenerateOneshotCommandArgs) -> (r: Result<String, ToolError>)
    requires
        heredoc_available(args.yaml@),
    ensures
        ({
            let url = match args.server_url {
                Some(u) => u@,
                None => "http://localhost:4545"@,
            };
            let format = match args.format {
                Some(f) => f@,
                None => "curl"@,
            };
            &&& format == "curl"@ ==> (r matches Ok(c) && c@ == curl_command(
                args.yaml@,
                args.inputs@,
                args.output@,
                url,
            ))
            &&& format == "skit-cli"@ ==> (r matches Ok(c) && c@ == cli_command(
                args.yaml@,
                args.inputs@,
                args.output@,
                url,
            ))
            &&& format != "curl"@ && format != "skit-cli"@ ==> (r matches Err(
                ToolError::InvalidParams(e),
            ) && e@ == "Invalid format '"@ + format + "'. Must be 'curl' or 'skit-cli'."@)
        }),
{
    proof {
        reveal_strlit("curl");
        reveal_strlit("skit-cli");
        assert("curl"@.len() != "skit-cli"@.len());
    }
    let url: &str = match &args.server_url {
        Some(u) => u.as_str(),
        None => "http://localhost:4545",
    };
    let format: &str = match &args.format {
        Some(f) => f.as_str(),
        None => "curl",
    };
    if str_equal(format, "curl") {
        Ok(generate_curl_command(args.yaml.as_str(), &args.inputs, args.output.as_str(), url))
    } else if str_equal(format, "skit-cli") {
        Ok(generate_skit_cli_command(args.yaml.as_str(), &args.inputs, args.output.as_str(), url))
    } else {
        Err(ToolError::InvalidParams(concat3("Invalid format '", format, "'. Must be 'curl' or 'skit-cli'.")))
    }
}

/// The parameter changes of `update_pipeline`, split into those applied
/// now (the caller may tune nodes) and those left to the caller.
pub fn split_param_changes(tune_nodes: bool, node_ids: &Vec<String>) -> (r: (Vec<String>, Vec<String>))
    ensures
        tune_nodes ==> texts(r.0@) == texts(node_ids@) && r.1@.len() == 0,
        !tune_nodes ==> texts(r.1@) == texts(node_ids@) && r.0@.len() == 0,
{
    let mut all: Vec<String> = Vec::new();
    for i in 0..node_ids.len()
        invariant
            texts(all@) == texts(node_ids@.take(i as int)),
    {
        let ghost before = all@;
        all.push(node_ids[i].clone());
        assert(texts(all@) =~= texts(before).push(node_ids@[i as int]@));
        assert(texts(node_ids@.take(i + 1)) =~= texts(node_ids@.take(i as int)).push(node_ids@[i as int]@));
    }
    assert(node_ids@.take(node_ids.len() as int) =~= node_ids@);
    if tune_nodes {
        (all, Vec::new())
    } else {
        (Vec::new(), all)
    }
}

/// The URI of a sample pipeline resource.
pub fn sample_resource_uri(sample_id: &str) -> (r: String)
    ensures
        r@ == "streamkit://samples/"@ + sample_id@,
{
    let mut m = chars_of("streamkit://samples/");
    crate::text::extend_str(&mut m, sample_id);
    string_of(&m)
}

/// The sample id a resource URI names, `mode/id`, or why the URI is
/// refused.
pub open spec fn resource_sample_id(uri: Seq<char>) -> Result<Seq<char>, Seq<char>> {
    let prefix = "streamkit://samples/"@;
    if !has_prefix(uri, prefix) {
        Err("Invalid resource URI '"@ + uri + "': expected streamkit://samples/{mode}/{id}"@)
    } else {
        let path = uri.skip(prefix.len() as int);
        match crate::samples::id_parts(path) {
            (None, _) => Err("Malformed resource URI '"@ + uri + "': expected streamkit://samples/{mode}/{id}"@),
            (Some(mode), id) => if !(mode == "oneshot"@ || mode == "dynamic"@ || mode == "demo"@ || mode == "user"@) {
                Err("Unknown sample mode '"@ + mode + "' in URI '"@ + uri + "'"@)
            } else if crate::text::contains_seq(id, ".."@) || id.contains('/') || id.contains('\\') {
                Err("Invalid resource ID in URI '"@ + uri + "'"@)
            } else {
                Ok(mode + "/"@ + id)
            },
        }
    }
}

/// Reads the sample a `read_resource` request names.
pub fn parse_sample_resource_uri(uri: &str) -> (r: Result<String, ToolError>)
    ensures
        match resource_sample_id(uri@) {
            Ok(id) => r matches Ok(s) && s@ == id,
            Err(m) => r matches Err(ToolError::InvalidParams(e)) && e@ == m,
        },
{
    let u = chars_of(uri);
    let prefix = chars_of("streamkit://samples/");
    if !starts_with(&u, &prefix) {
        return Err(ToolError::InvalidParams(concat3("Invalid resource URI '", uri, "': expected streamkit://samples/{mode}/{id}")));
    }
    let path_v = crate::text::skip_chars(&u, prefix.len());
    let path = string_of(&path_v);
    let (mode, id) = crate::samples::split_sample_id(path.as_str());
    match mode {
        None => Err(ToolError::InvalidParams(concat3("Malformed resource URI '", uri, "': expected streamkit://samples/{mode}/{id}"))),
        Some(mode) => {
            let m = mode.as_str();
            if !(str_equal(m, "oneshot") || str_equal(m, "dynamic") || str_equal(m, "demo") || str_equal(m, "user")) {
                let mut t = chars_of("Unknown sample mode '");
                crate::text::extend_str(&mut t, m);
                crate::text::extend_str(&mut t, "' in URI '");
                crate::text::extend_str(&mut t, uri);
                crate::text::extend_str(&mut t, "'");
                return Err(ToolError::InvalidParams(string_of(&t)));
            }
            let iv = chars_of(id.as_str());
            let dd = chars_of("..");
            if crate::text::contains(&iv, &dd) || crate::text::contains_char(&iv, '/') || crate::text::contains_char(&iv, '\\') {
                return Err(ToolError::InvalidParams(concat3("Invalid resource ID in URI '", uri, "'")));
            }
            Ok(concat3(m, "/", id.as_str()))
        },
    }
}

} // verus!
