//! What a task actor announces to WebSocket clients after an event moved
//! its task to a new state.

use vstd::prelude::*;

use crate::domain::{DomainEvent, TaskState};
use crate::text::{concat2, string_from_literal};

verus! {

/// The event-specific announcement (besides the board update, which is
/// always sent).
#[derive(Debug, Clone, PartialEq, Eq)]
pub enum ActorNotice {
    /// Agent output, streamed to the agent's channel.
    AgentOutput { agent_id: String, output: String },
    /// A new triage item of the given priority.
    TriageNew { priority: String, summary: String },
    /// The task's triage items are resolved.
    TriageResolved,
    /// Nothing beyond the board update.
    Nothing,
}

/// Mathematical content of an [`ActorNotice`].
pub enum NoticeView {
    AgentOutput(Seq<char>, Seq<char>),
    TriageNew(Seq<char>, Seq<char>),
    TriageResolved,
    Nothing,
}

impl View for ActorNotice {
    type V = NoticeView;

    open spec fn view(&self) -> NoticeView {
        match self {
            ActorNotice::AgentOutput { agent_id, output } => NoticeView::AgentOutput(agent_id@, output@),
            ActorNotice::TriageNew { priority, summary } => NoticeView::TriageNew(priority@, summary@),
            ActorNotice::TriageResolved => NoticeView::TriageResolved,
            ActorNotice::Nothing => NoticeView::Nothing,
        }
    }
}

/// The announcement for `event` leading to `new_state`: agent output is
/// streamed; a block opens a `p0` triage item; an agent completing into
/// approval opens a `p1` item; an unblock, or a human decision that
/// completes the task, resolves the task's items.
pub open spec fn notice_for(event: DomainEvent, new_state: TaskState) -> NoticeView {
    match event {
        DomainEvent::AgentOutput { agent_id, output } => NoticeView::AgentOutput(agent_id@, output@),
        DomainEvent::TaskBlocked { reason } => NoticeView::TriageNew(
            "p0"@,
            "Task blocked: "@ + reason@,
        ),
        DomainEvent::AgentCompleted { .. } => if new_state is AwaitingApproval {
            NoticeView::TriageNew("p1"@, "Awaiting human approval"@)
        } else {
            NoticeView::Nothing
        },
        DomainEvent::TaskUnblocked { .. } => NoticeView::TriageResolved,
        DomainEvent::HumanDecision { .. } => if new_state is Completed {
            NoticeView::TriageResolved
        } else {
            NoticeView::Nothing
        },
        _ => NoticeView::Nothing,
    }
}

/// The announcement a task actor makes after `event` moved its task to
/// `new_state` (see [`notice_for`]).
pub fn actor_notice(event: &DomainEvent, new_state: &TaskState) -> (n: ActorNotice)
    ensures
        n@ == notice_for(*event, *new_state),
{
    match event {
        DomainEvent::AgentOutput { agent_id, output } => ActorNotice::AgentOutput {
            agent_id: agent_id.clone(),
            output: output.clone(),
        },
        DomainEvent::TaskBlocked { reason } => ActorNotice::TriageNew {
            priority: string_from_literal("p0"),
            summary: concat2("Task blocked: ", reason.as_str()),
        },
        DomainEvent::AgentCompleted { .. } => match new_state {
            TaskState::AwaitingApproval { .. } => ActorNotice::TriageNew {
                priority: string_from_literal("p1"),
                summary: string_from_literal("Awaiting human approval"),
            },
            _ => ActorNotice::Nothing,
        },
        DomainEvent::TaskUnblocked { .. } => ActorNotice::TriageResolved,
        DomainEvent::HumanDecision { .. } => match new_state {
            TaskState::Completed { .. } => ActorNotice::TriageResolved,
            _ => ActorNotice::Nothing,
        },
        _ => ActorNotice::Nothing,
    }
}

} // verus!
