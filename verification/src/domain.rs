//! The task domain model that the server's logic reads: priorities, task
//! states, decisions and the event log entries they travel in.

use vstd::prelude::*;

use crate::text::string_from_literal;

verus! {

/// Task priority, P0 most urgent.
#[derive(Debug, Clone, Copy, PartialEq, Eq, Hash, Structural)]
pub enum Priority {
    P0,
    P1,
    P2,
    P3,
}

/// Lowercase rendering of a priority (`"p0"` .. `"p3"`).
pub open spec fn priority_text(p: Priority) -> Seq<char> {
    match p {
        Priority::P0 => "p0"@,
        Priority::P1 => "p1"@,
        Priority::P2 => "p2"@,
        Priority::P3 => "p3"@,
    }
}

impl Priority {
    /// Lowercase rendering (`"p0"` .. `"p3"`).
    pub fn as_lower(&self) -> (s: String)
        ensures
            s@ == priority_text(*self),
    {
        match self {
            Priority::P0 => string_from_literal("p0"),
            Priority::P1 => string_from_literal("p1"),
            Priority::P2 => string_from_literal("p2"),
            Priority::P3 => string_from_literal("p3"),
        }
    }
}

/// How a finished task ended.
#[derive(Debug, Clone, PartialEq, Eq)]
pub enum TaskOutcome {
    Success,
    Rejected { reason: String },
    Abandoned { reason: String },
}

/// Lifecycle state of a task.
#[derive(Debug, Clone, PartialEq, Eq)]
pub enum TaskState {
    Pending,
    InProgress,
    Blocked { reason: String },
    AwaitingApproval { approvers: Vec<String>, approved_by: Vec<String> },
    Completed { outcome: TaskOutcome },
    Failed { reason: String },
}

/// A human decision on a task awaiting approval.
#[derive(Debug, Clone, PartialEq, Eq)]
pub enum HumanDecisionKind {
    Approved,
    Rejected { reason: String },
    Redirected { to_stage: String, reason: String },
}

/// A domain event recorded in the event log.
#[derive(Debug, Clone, PartialEq, Eq)]
pub enum DomainEvent {
    TaskCreated {
        title: String,
        description: String,
        initial_stage: String,
        priority: Priority,
        board_id: Option<String>,
    },
    TaskStageChanged { from_stage: String, to_stage: String, new_state: TaskState },
    TaskPriorityChanged { from: Priority, to: Priority },
    TaskBlocked { reason: String },
    TaskUnblocked { resolution: Option<String> },
    TaskCompleted { outcome: TaskOutcome },
    AgentAssigned { agent_id: String, agent_name: String },
    AgentOutput { agent_id: String, output: String },
    AgentCompleted { agent_id: String, summary: Option<String> },
    HumanDecision { decided_by: String, decision: HumanDecisionKind, note: Option<String> },
    TaskImported { source: String, external_id: String, external_url: String },
    IntegrationConfigured,
}

/// One entry of the event log: a domain event with its identifiers.
/// `timestamp` is the RFC 3339 rendering of the event's time.
#[derive(Debug, Clone, PartialEq, Eq)]
pub struct EventEnvelope {
    pub id: String,
    pub task_id: Option<String>,
    pub project_id: String,
    pub session_id: String,
    pub timestamp: String,
    pub caused_by: Option<String>,
    pub payload: DomainEvent,
}

/// Board column status of a task.
#[derive(Debug, Clone, Copy, PartialEq, Eq, Structural)]
pub enum BoardStatus {
    Waiting,
    Running,
    Blocked,
    Complete,
}

/// Text of a board status as sent to the UI.
pub open spec fn board_status_text(s: BoardStatus) -> Seq<char> {
    match s {
        BoardStatus::Waiting => "waiting"@,
        BoardStatus::Running => "running"@,
        BoardStatus::Blocked => "blocked"@,
        BoardStatus::Complete => "complete"@,
    }
}

impl BoardStatus {
    /// Text sent to the UI (`"waiting"`, `"running"`, `"blocked"`, `"complete"`).
    pub fn as_str(&self) -> (s: String)
        ensures
            s@ == board_status_text(*self),
    {
        match self {
            BoardStatus::Waiting => string_from_literal("waiting"),
            BoardStatus::Running => string_from_literal("running"),
            BoardStatus::Blocked => string_from_literal("blocked"),
            BoardStatus::Complete => string_from_literal("complete"),
        }
    }
}

/// Board status shown for a task state.
pub open spec fn status_for_state(s: TaskState) -> BoardStatus {
    match s {
        TaskState::Pending => BoardStatus::Waiting,
        TaskState::InProgress => BoardStatus::Running,
        TaskState::Blocked { .. } => BoardStatus::Blocked,
        TaskState::AwaitingApproval { .. } => BoardStatus::Waiting,
        TaskState::Completed { .. } => BoardStatus::Complete,
        TaskState::Failed { .. } => BoardStatus::Blocked,
    }
}

/// Board status shown for a task state: pending and awaiting approval are
/// waiting, in progress is running, blocked and failed are blocked,
/// completed is complete.
pub fn board_status_for_state(s: &TaskState) -> (r: BoardStatus)
    ensures
        r == status_for_state(*s),
{
    match s {
        TaskState::Pending => BoardStatus::Waiting,
        TaskState::InProgress => BoardStatus::Running,
        TaskState::Blocked { .. } => BoardStatus::Blocked,
        TaskState::AwaitingApproval { .. } => BoardStatus::Waiting,
        TaskState::Completed { .. } => BoardStatus::Complete,
        TaskState::Failed { .. } => BoardStatus::Blocked,
    }
}

/// Copy of an optional string.
pub fn clone_opt(s: &Option<String>) -> (r: Option<String>)
    ensures
        r == *s,
{
    match s {
        Some(v) => Some(v.clone()),
        None => None,
    }
}

} // verus!
