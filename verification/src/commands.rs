//! The values the desktop app exchanges with its frontend, and their
//! conversions to and from the library's own types.

use vstd::prelude::*;
use crate::opencode_config::AgentMapping;
use crate::custom_agents::{PermissionLevel, BashPermission, AgentPermissions, AgentMode};

verus! {

/// The outcome of a provider connection test.
#[derive(Clone, Debug)]
pub struct TestConnectionResult {
    pub success: bool,
    pub status_code: Option<u16>,
    pub message: String,
}

/// The outcome of a proxy health check.
#[derive(Clone, Debug)]
pub struct HealthCheckResult {
    pub running: bool,
    pub status: Option<String>,
    pub uptime_seconds: Option<u64>,
}

/// Whether an update of the app is available.
#[derive(Clone, Debug)]
pub struct UpdateStatus {
    pub available: bool,
    pub current_version: String,
    pub latest_version: Option<String>,
    pub release_notes: Option<String>,
}

/// A request to improve an agent's text with a model group.
#[derive(Clone, Debug)]
pub struct AgentEnhanceRequest {
    pub text: String,
    pub enhance_type: String,
    pub model_group: String,
}

/// The improved text, or a suggestion as JSON text.
#[derive(Clone, Debug)]
pub struct AgentEnhanceResponse {
    pub result: String,
}

/// The agent mapping as the frontend sends and receives it.
#[derive(Clone, Debug)]
pub struct OpenCodeAgentMapping {
    pub build: Option<String>,
    pub plan: Option<String>,
    pub general: Option<String>,
    pub explore: Option<String>,
    pub compaction: Option<String>,
    pub title: Option<String>,
    pub summary: Option<String>,
    pub small_model: Option<String>,
}

impl From<OpenCodeAgentMapping> for AgentMapping {
    fn from(m: OpenCodeAgentMapping) -> (r: Self) {
        AgentMapping {
            build: m.build,
            plan: m.plan,
            general: m.general,
            explore: m.explore,
            compaction: m.compaction,
            title: m.title,
            summary: m.summary,
            small_model: m.small_model,
        }
    }
}

impl vstd::std_specs::convert::FromSpecImpl<OpenCodeAgentMapping> for AgentMapping {
    open spec fn obeys_from_spec() -> bool {
        true
    }

    open spec fn from_spec(m: OpenCodeAgentMapping) -> AgentMapping {
        AgentMapping {
            build: m.build,
            plan: m.plan,
            general: m.general,
            explore: m.explore,
            compaction: m.compaction,
            title: m.title,
            summary: m.summary,
            small_model: m.small_model,
        }
    }
}

impl From<AgentMapping> for OpenCodeAgentMapping {
    fn from(m: AgentMapping) -> (r: Self) {
        OpenCodeAgentMapping {
            build: m.build,
            plan: m.plan,
            general: m.general,
            explore: m.explore,
            compaction: m.compaction,
            title: m.title,
            summary: m.summary,
            small_model: m.small_model,
        }
    }
}

impl vstd::std_specs::convert::FromSpecImpl<AgentMapping> for OpenCodeAgentMapping {
    open spec fn obeys_from_spec() -> bool {
        true
    }

    open spec fn from_spec(m: AgentMapping) -> OpenCodeAgentMapping {
        OpenCodeAgentMapping {
            build: m.build,
            plan: m.plan,
            general: m.general,
            explore: m.explore,
            compaction: m.compaction,
            title: m.title,
            summary: m.summary,
            small_model: m.small_model,
        }
    }
}

/// A permission level as the frontend sends and receives it.
#[derive(Clone, Copy, Debug, PartialEq, Eq, Structural)]
pub enum PermissionLevelResponse {
    Allow,
    Deny,
    Ask,
}

impl From<PermissionLevel> for PermissionLevelResponse {
    fn from(p: PermissionLevel) -> (r: Self) {
        match p {
            PermissionLevel::Allow => PermissionLevelResponse::Allow,
            PermissionLevel::Deny => PermissionLevelResponse::Deny,
            PermissionLevel::Ask => PermissionLevelResponse::Ask,
        }
    }
}

impl vstd::std_specs::convert::FromSpecImpl<PermissionLevel> for PermissionLevelResponse {
    open spec fn obeys_from_spec() -> bool {
        true
    }

    open spec fn from_spec(p: PermissionLevel) -> PermissionLevelResponse {
        match p {
            PermissionLevel::Allow => PermissionLevelResponse::Allow,
            PermissionLevel::Deny => PermissionLevelResponse::Deny,
            PermissionLevel::Ask => PermissionLevelResponse::Ask,
        }
    }
}

impl From<PermissionLevelResponse> for PermissionLevel {
    fn from(p: PermissionLevelResponse) -> (r: Self) {
        match p {
            PermissionLevelResponse::Allow => PermissionLevel::Allow,
            PermissionLevelResponse::Deny => PermissionLevel::Deny,
            PermissionLevelResponse::Ask => PermissionLevel::Ask,
        }
    }
}

impl vstd::std_specs::convert::FromSpecImpl<PermissionLevelResponse> for PermissionLevel {
    open spec fn obeys_from_spec() -> bool {
        true
    }

    open spec fn from_spec(p: PermissionLevelResponse) -> PermissionLevel {
        match p {
            PermissionLevelResponse::Allow => PermissionLevel::Allow,
            PermissionLevelResponse::Deny => PermissionLevel::Deny,
            PermissionLevelResponse::Ask => PermissionLevel::Ask,
        }
    }
}

/// An agent mode as the frontend sends and receives it.
#[derive(Clone, Copy, Debug, PartialEq, Eq, Structural)]
pub enum AgentModeResponse {
    Primary,
    Subagent,
    All,
}

impl Default for AgentModeResponse {
    fn default() -> (r: Self)
        ensures
            r == AgentModeResponse::Subagent,
    {
        AgentModeResponse::Subagent
    }
}

impl From<AgentMode> for AgentModeResponse {
    fn from(m: AgentMode) -> (r: Self) {
        match m {
            AgentMode::Primary => AgentModeResponse::Primary,
            AgentMode::Subagent => AgentModeResponse::Subagent,
            AgentMode::All => AgentModeResponse::All,
        }
    }
}

impl vstd::std_specs::convert::FromSpecImpl<AgentMode> for AgentModeResponse {
    open spec fn obeys_from_spec() -> bool {
        true
    }

    open spec fn from_spec(m: AgentMode) -> AgentModeResponse {
        match m {
            AgentMode::Primary => AgentModeResponse::Primary,
            AgentMode::Subagent => AgentModeResponse::Subagent,
            AgentMode::All => AgentModeResponse::All,
        }
    }
}

impl From<AgentModeResponse> for AgentMode {
    fn from(m: AgentModeResponse) -> (r: Self) {
        match m {
            AgentModeResponse::Primary => AgentMode::Primary,
            AgentModeResponse::Subagent => AgentMode::Subagent,
            AgentModeResponse::All => AgentMode::All,
        }
    }
}

impl vstd::std_specs::convert::FromSpecImpl<AgentModeResponse> for AgentMode {
    open spec fn obeys_from_spec() -> bool {
        true
    }

    open spec fn from_spec(m: AgentModeResponse) -> AgentMode {
        match m {
            AgentModeResponse::Primary => AgentMode::Primary,
            AgentModeResponse::Subagent => AgentMode::Subagent,
            AgentModeResponse::All => AgentMode::All,
        }
    }
}

/// A bash permission as the frontend sends and receives it.
#[derive(Clone, Debug)]
pub enum BashPermissionResponse {
    Simple(PermissionLevelResponse),
    Commands(Vec<(String, PermissionLevelResponse)>),
}

/// Agent permissions as the frontend sends and receives them.
#[derive(Clone, Debug)]
pub struct AgentPermissionsResponse {
    pub edit: Option<PermissionLevelResponse>,
    pub bash: Option<BashPermissionResponse>,
    pub webfetch: Option<PermissionLevelResponse>,
    pub task: Option<Vec<(String, PermissionLevelResponse)>>,
}

impl Default for AgentPermissionsResponse {
    fn default() -> (r: Self)
        ensures
            r.edit is None && r.bash is None && r.webfetch is None && r.task is None,
    {
        AgentPermissionsResponse { edit: None, bash: None, webfetch: None, task: None }
    }
}

pub open spec fn level_response(p: PermissionLevel) -> PermissionLevelResponse {
    match p {
        PermissionLevel::Allow => PermissionLevelResponse::Allow,
        PermissionLevel::Deny => PermissionLevelResponse::Deny,
        PermissionLevel::Ask => PermissionLevelResponse::Ask,
    }
}

pub open spec fn level_of_response(p: PermissionLevelResponse) -> PermissionLevel {
    match p {
        PermissionLevelResponse::Allow => PermissionLevel::Allow,
        PermissionLevelResponse::Deny => PermissionLevel::Deny,
        PermissionLevelResponse::Ask => PermissionLevel::Ask,
    }
}

/// The same pattern list with each level converted for the frontend.
pub open spec fn patterns_to_response(
    a: Seq<(String, PermissionLevel)>,
    b: Seq<(String, PermissionLevelResponse)>,
) -> bool {
    a.len() == b.len() && forall|i: int|
        0 <= i < a.len() ==> (#[trigger] b[i]).0@ == a[i].0@ && b[i].1 == level_response(a[i].1)
}

/// The same pattern list with each level converted from the frontend.
pub open spec fn patterns_from_response(
    a: Seq<(String, PermissionLevelResponse)>,
    b: Seq<(String, PermissionLevel)>,
) -> bool {
    a.len() == b.len() && forall|i: int|
        0 <= i < a.len() ==> (#[trigger] b[i]).0@ == a[i].0@ && b[i].1 == level_of_response(a[i].1)
}

fn patterns_response(v: &Vec<(String, PermissionLevel)>) -> (r: Vec<(String, PermissionLevelResponse)>)
    ensures
        patterns_to_response(v@, r@),
{
    let mut out: Vec<(String, PermissionLevelResponse)> = Vec::new();
    let mut i: usize = 0;
    while i < v.len()
        invariant
            i <= v@.len(),
            out@.len() == i,
            forall|k: int| 0 <= k < i ==> (#[trigger] out@[k]).0@ == v@[k].0@ && out@[k].1 == level_response(v@[k].1),
        decreases v.len() - i,
    {
        let level: PermissionLevelResponse = PermissionLevelResponse::from(v[i].1);
        out.push((String::from_str(v[i].0.as_str()), level));
        i = i + 1;
    }
    out
}

fn patterns_from(v: &Vec<(String, PermissionLevelResponse)>) -> (r: Vec<(String, PermissionLevel)>)
    ensures
        patterns_from_response(v@, r@),
{
    let mut out: Vec<(String, PermissionLevel)> = Vec::new();
    let mut i: usize = 0;
    while i < v.len()
        invariant
            i <= v@.len(),
            out@.len() == i,
            forall|k: int| 0 <= k < i ==> (#[trigger] out@[k]).0@ == v@[k].0@ && out@[k].1 == level_of_response(v@[k].1),
        decreases v.len() - i,
    {
        let level: PermissionLevel = PermissionLevel::from(v[i].1);
        out.push((String::from_str(v[i].0.as_str()), level));
        i = i + 1;
    }
    out
}

/// A bash permission converted for the frontend.
pub open spec fn bash_to_response(p: BashPermission, r: BashPermissionResponse) -> bool {
    match (p, r) {
        (BashPermission::Simple(l), BashPermissionResponse::Simple(m)) => m == level_response(l),
        (BashPermission::Commands(a), BashPermissionResponse::Commands(b)) => patterns_to_response(a@, b@),
        _ => false,
    }
}

/// A bash permission converted from the frontend.
pub open spec fn bash_from_response(p: BashPermissionResponse, r: BashPermission) -> bool {
    match (p, r) {
        (BashPermissionResponse::Simple(l), BashPermission::Simple(m)) => m == level_of_response(l),
        (BashPermissionResponse::Commands(a), BashPermission::Commands(b)) => patterns_from_response(a@, b@),
        _ => false,
    }
}

/// Converts a bash permission for the frontend.
pub fn bash_permission_response(p: &BashPermission) -> (r: BashPermissionResponse)
    ensures
        bash_to_response(*p, r),
{
    match p {
        BashPermission::Simple(l) => BashPermissionResponse::Simple(PermissionLevelResponse::from(*l)),
        BashPermission::Commands(v) => BashPermissionResponse::Commands(patterns_response(v)),
    }
}

/// Converts a bash permission from the frontend.
pub fn bash_permission_from_response(p: &BashPermissionResponse) -> (r: BashPermission)
    ensures
        bash_from_response(*p, r),
{
    match p {
        BashPermissionResponse::Simple(l) => BashPermission::Simple(PermissionLevel::from(*l)),
        BashPermissionResponse::Commands(v) => BashPermission::Commands(patterns_from(v)),
    }
}

/// Converts agent permissions for the frontend, field by field.
pub fn agent_permissions_response(p: &AgentPermissions) -> (r: AgentPermissionsResponse)
    ensures
        r.edit == (match p.edit {
            Some(l) => Some(level_response(l)),
            None => None,
        }),
        r.webfetch == (match p.webfetch {
            Some(l) => Some(level_response(l)),
            None => None,
        }),
        match (p.bash, r.bash) {
            (Some(a), Some(b)) => bash_to_response(a, b),
            (None, None) => true,
            _ => false,
        },
        match (p.task, r.task) {
            (Some(a), Some(b)) => patterns_to_response(a@, b@),
            (None, None) => true,
            _ => false,
        },
{
    AgentPermissionsResponse {
        edit: match p.edit {
            Some(l) => Some(PermissionLevelResponse::from(l)),
            None => None,
        },
        bash: match &p.bash {
            Some(b) => Some(bash_permission_response(b)),
            None => None,
        },
        webfetch: match p.webfetch {
            Some(l) => Some(PermissionLevelResponse::from(l)),
            None => None,
        },
        task: match &p.task {
            Some(t) => Some(patterns_response(t)),
            None => None,
        },
    }
}

/// Converts agent permissions from the frontend, field by field.
pub fn agent_permissions_from_response(p: &AgentPermissionsResponse) -> (r: AgentPermissions)
    ensures
        r.edit == (match p.edit {
            Some(l) => Some(level_of_response(l)),
            None => None,
        }),
        r.webfetch == (match p.webfetch {
            Some(l) => Some(level_of_response(l)),
            None => None,
        }),
        match (p.bash, r.bash) {
            (Some(a), Some(b)) => bash_from_response(a, b),
            (None, None) => true,
            _ => false,
        },
        match (p.task, r.task) {
            (Some(a), Some(b)) => patterns_from_response(a@, b@),
            (None, None) => true,
            _ => false,
        },
{
    AgentPermissions {
        edit: match p.edit {
            Some(l) => Some(PermissionLevel::from(l)),
            None => None,
        },
        bash: match &p.bash {
            Some(b) => Some(bash_permission_from_response(b)),
            None => None,
        },
        webfetch: match p.webfetch {
            Some(l) => Some(PermissionLevel::from(l)),
            None => None,
        },
        task: match &p.task {
            Some(t) => Some(patterns_from(t)),
            None => None,
        },
    }
}

} // verus!
