//! Default interrupt classification rules for domain events.

use vstd::prelude::*;

use crate::attention::priority::{tier_of, AttentionCategory, InterruptLevel};
use crate::domain::{DomainEvent, HumanDecisionKind, TaskState};

verus! {

/// Level of an event under the default rules:
/// P0 for a blocked task; P1 for a move into approval or a rejection;
/// P2 for agent completion, other stage changes, assignment, completion,
/// unblocking and other decisions; P3 for output, priority changes,
/// creation, imports and integration changes.
pub open spec fn level_of(e: DomainEvent) -> InterruptLevel {
    match e {
        DomainEvent::TaskBlocked { .. } => InterruptLevel::P0,
        DomainEvent::TaskStageChanged { new_state, .. } => if new_state is AwaitingApproval {
            InterruptLevel::P1
        } else {
            InterruptLevel::P2
        },
        DomainEvent::HumanDecision { decision, .. } => if decision is Rejected {
            InterruptLevel::P1
        } else {
            InterruptLevel::P2
        },
        DomainEvent::AgentCompleted { .. } => InterruptLevel::P2,
        DomainEvent::AgentAssigned { .. } => InterruptLevel::P2,
        DomainEvent::TaskCompleted { .. } => InterruptLevel::P2,
        DomainEvent::TaskUnblocked { .. } => InterruptLevel::P2,
        DomainEvent::AgentOutput { .. } => InterruptLevel::P3,
        DomainEvent::TaskPriorityChanged { .. } => InterruptLevel::P3,
        DomainEvent::TaskCreated { .. } => InterruptLevel::P3,
        DomainEvent::TaskImported { .. } => InterruptLevel::P3,
        DomainEvent::IntegrationConfigured => InterruptLevel::P3,
    }
}

/// Only a blocked task is an immediate interrupt (P0); P1 is exactly a move
/// into approval or a rejection; output, priority changes, creation, imports
/// and integration changes are passive (P3); everything else is P2.
pub proof fn law_levels(e: DomainEvent)
    ensures
        level_of(e) == InterruptLevel::P0 <==> e is TaskBlocked,
        level_of(e) == InterruptLevel::P1 <==> (e matches DomainEvent::TaskStageChanged {
            new_state,
            ..
        } && new_state is AwaitingApproval) || (e matches DomainEvent::HumanDecision {
            decision,
            ..
        } && decision is Rejected),
        level_of(e) == InterruptLevel::P3 <==> e is AgentOutput || e is TaskPriorityChanged
            || e is TaskCreated || e is TaskImported || e is IntegrationConfigured,
{
}

/// The decision queue receives blocked tasks, moves into approval and
/// rejections only; an import or an integration change lands on the passive
/// dashboard.
pub proof fn law_decision_queue(e: DomainEvent)
    ensures
        tier_of(level_of(e)) == AttentionCategory::DecisionQueue <==> e is TaskBlocked || (e matches DomainEvent::TaskStageChanged {
            new_state,
            ..
        } && new_state is AwaitingApproval) || (e matches DomainEvent::HumanDecision {
            decision,
            ..
        } && decision is Rejected),
        e is TaskImported || e is IntegrationConfigured ==> tier_of(level_of(e))
            == AttentionCategory::PassiveDashboard,
{
}

/// Classifies a domain event into an interrupt level using the default rules.
#[derive(Debug, Clone, Copy, PartialEq, Eq, Structural)]
pub struct InterruptClassifier;

impl InterruptClassifier {
    /// A classifier with the default rules.
    pub fn new() -> (c: Self) {
        InterruptClassifier
    }

    /// Classify an event (see [`level_of`]).
    pub fn classify(&self, event: &DomainEvent) -> (l: InterruptLevel)
        ensures
            l == level_of(*event),
    {
        match event {
            DomainEvent::TaskBlocked { .. } => InterruptLevel::P0,
            DomainEvent::TaskStageChanged { new_state, .. } => match new_state {
                TaskState::AwaitingApproval { .. } => InterruptLevel::P1,
                _ => InterruptLevel::P2,
            },
            DomainEvent::HumanDecision { decision, .. } => match decision {
                HumanDecisionKind::Rejected { .. } => InterruptLevel::P1,
                _ => InterruptLevel::P2,
            },
            DomainEvent::AgentCompleted { .. } => InterruptLevel::P2,
            DomainEvent::AgentAssigned { .. } => InterruptLevel::P2,
            DomainEvent::TaskCompleted { .. } => InterruptLevel::P2,
            DomainEvent::TaskUnblocked { .. } => InterruptLevel::P2,
            DomainEvent::AgentOutput { .. } => InterruptLevel::P3,
            DomainEvent::TaskPriorityChanged { .. } => InterruptLevel::P3,
            DomainEvent::TaskCreated { .. } => InterruptLevel::P3,
            DomainEvent::TaskImported { .. } => InterruptLevel::P3,
            DomainEvent::IntegrationConfigured => InterruptLevel::P3,
        }
    }
}

} // verus!
