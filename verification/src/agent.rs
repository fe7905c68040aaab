//! What the library knows of an agent: the roles it is dispatched in, the
//! request it is handed, and how a dispatch ends.

use vstd::prelude::*;

use crate::table::Table;

verus! {

/// The role an agent is dispatched in.
#[derive(Debug, Clone, Copy, PartialEq, Eq, Structural)]
pub enum Role {
    /// Drafts the plan.
    Planner,
    /// Implements a phase, works through a sweep, or runs a grind session.
    Implementer,
    /// Reviews a staged diff.
    Auditor,
    /// Repairs a failing test suite.
    Fixer,
}

/// The name of a role.
pub open spec fn role_text(role: Role) -> Seq<char> {
    match role {
        Role::Planner => "planner"@,
        Role::Implementer => "implementer"@,
        Role::Auditor => "auditor"@,
        Role::Fixer => "fixer"@,
    }
}

/// Different roles have different names, so no role is counted or priced as
/// another.
pub proof fn role_names_differ(a: Role, b: Role)
    requires
        a != b,
    ensures
        role_text(a) != role_text(b),
{
    reveal_strlit("planner");
    reveal_strlit("implementer");
    reveal_strlit("auditor");
    reveal_strlit("fixer");
    assert("planner"@[0] == 'p' && "auditor"@[0] == 'a');
    assert("planner"@.len() == 7 && "implementer"@.len() == 11 && "auditor"@.len() == 7
        && "fixer"@.len() == 5);
}

impl Role {
    /// The name of the role, by which token usage is counted.
    pub fn as_str(self) -> (r: &'static str)
        ensures
            r@ == role_text(self),
    {
        match self {
            Role::Planner => "planner",
            Role::Implementer => "implementer",
            Role::Auditor => "auditor",
            Role::Fixer => "fixer",
        }
    }
}

/// Why a dispatch ended.
#[derive(Debug, PartialEq, Eq)]
pub enum StopReason {
    /// The agent finished its turn.
    Completed,
    /// The agent outlived its wall-clock cap.
    Timeout,
    /// The dispatch was cancelled.
    Cancelled,
    /// The agent failed with the carried message.
    Error(String),
}

/// A [`StopReason`] as a mathematical value.
pub enum StopModel {
    Completed,
    Timeout,
    Cancelled,
    Error(Seq<char>),
}

impl View for StopReason {
    type V = StopModel;

    open spec fn view(&self) -> StopModel {
        match self {
            StopReason::Completed => StopModel::Completed,
            StopReason::Timeout => StopModel::Timeout,
            StopReason::Cancelled => StopModel::Cancelled,
            StopReason::Error(msg) => StopModel::Error(msg@),
        }
    }
}

/// One agent dispatch.
#[derive(Debug, PartialEq, Eq)]
pub struct AgentRequest {
    /// The role of the dispatch.
    pub role: Role,
    /// Model identifier, passed verbatim to the agent.
    pub model: String,
    /// System prompt; empty for none.
    pub system_prompt: String,
    /// User prompt.
    pub user_prompt: String,
    /// Directory the agent works in.
    pub workdir: String,
    /// File the agent's transcript goes to.
    pub log_path: String,
    /// Wall-clock cap in seconds.
    pub timeout_secs: u64,
    /// Environment variables layered onto the agent's process.
    pub env: Table<String>,
}

/// What an agent reports while it runs.
#[derive(Debug, PartialEq, Eq)]
pub enum AgentEvent {
    /// One line of stdout.
    Stdout(String),
    /// One line of stderr.
    Stderr(String),
    /// A tool was invoked.
    ToolUse(String),
    /// Tokens were billed. Totals are taken from the end of the dispatch.
    TokenDelta,
}

} // verus!
