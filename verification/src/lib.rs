//! Verified core of the CodeRouter proxy: configuration models, routing
//! state, request translation and validation helpers.

pub mod text;
pub mod seqs;
pub mod config_models;
pub mod clock;
pub mod router;
pub mod ssrf;
pub mod json;
pub mod ids;
pub mod translator;
pub mod codex;
pub mod codex_stream;
pub mod custom_agents;
pub mod opencode_config;
pub mod commands;
pub mod upstream;
pub mod metrics;
pub mod jsonw;
pub mod codex_request;
pub mod failover;
pub mod redact;
pub mod json_model;
pub mod codex_aggregate;
pub mod response;
pub mod moa;
pub mod codex_auth;
pub mod models;
pub mod reload;
pub mod dispatch;
pub mod refresher;
pub mod paths;
pub mod desktop;
pub mod probes;
pub mod daily_totals;
pub mod config_edits;
pub mod credential_file;
