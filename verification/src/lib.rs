use vstd::prelude::*;

pub mod text;
pub mod net;
pub mod paths;
pub mod unicode;
pub mod marketplace_security;
pub mod permissions;
pub mod samples;
pub mod plugin_assets;
pub mod oneshot;
pub mod metrics_labels;
pub mod server;
pub mod sample_discovery;
pub mod plugin_paths;
pub mod plugin_records;
pub mod profiling;
pub mod gateway_routes;
pub mod http_inputs;
pub mod pipeline_diff;
pub mod mcp_tools;
pub mod mcp_prompts;
pub mod session_rules;
pub mod multipart_routing;
pub mod plugin_http;
pub mod plugin_manager;
pub mod web_routes;
pub mod asset_handlers;
