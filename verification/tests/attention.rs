use molt_hub_server::attention::classifier::InterruptClassifier;
use molt_hub_server::attention::priority::{attention_tier, AttentionCategory, InterruptLevel};
use molt_hub_server::attention::router::{
    debug_decision, debug_outcome, InMemoryNotificationStore, Notification, NotificationRouter,
};
use molt_hub_server::attention::summary::AttentionSummary;
use molt_hub_server::domain::{DomainEvent, HumanDecisionKind, Priority, TaskOutcome, TaskState};

fn classifier() -> InterruptClassifier {
    InterruptClassifier::new()
}

fn agent_id() -> String {
    ulid::Ulid::new().to_string()
}

#[test]
fn tier_mapping_p0_to_decision_queue() {
    assert_eq!(attention_tier(InterruptLevel::P0), AttentionCategory::DecisionQueue);
}

#[test]
fn tier_mapping_p1_to_decision_queue() {
    assert_eq!(attention_tier(InterruptLevel::P1), AttentionCategory::DecisionQueue);
}

#[test]
fn tier_mapping_p2_to_notification_digest() {
    assert_eq!(attention_tier(InterruptLevel::P2), AttentionCategory::NotificationDigest);
}

#[test]
fn tier_mapping_p3_to_passive_dashboard() {
    assert_eq!(attention_tier(InterruptLevel::P3), AttentionCategory::PassiveDashboard);
}

#[test]
fn interrupt_level_display() {
    assert_eq!(InterruptLevel::P0.to_string(), "P0");
    assert_eq!(InterruptLevel::P1.to_string(), "P1");
    assert_eq!(InterruptLevel::P2.to_string(), "P2");
    assert_eq!(InterruptLevel::P3.to_string(), "P3");
}

#[test]
fn interrupt_level_ordering() {
    assert!(InterruptLevel::P0 < InterruptLevel::P1);
    assert!(InterruptLevel::P1 < InterruptLevel::P2);
    assert!(InterruptLevel::P2 < InterruptLevel::P3);
}

#[test]
fn attention_category_display() {
    assert_eq!(AttentionCategory::DecisionQueue.to_string(), "DecisionQueue");
    assert_eq!(AttentionCategory::NotificationDigest.to_string(), "NotificationDigest");
    assert_eq!(AttentionCategory::PassiveDashboard.to_string(), "PassiveDashboard");
}

#[test]
fn level_rank_follows_urgency() {
    assert_eq!(InterruptLevel::P0.rank(), 0);
    assert_eq!(InterruptLevel::P3.rank(), 3);
}

#[test]
fn task_blocked_is_p0() {
    let event = DomainEvent::TaskBlocked { reason: "dependency missing".into() };
    assert_eq!(classifier().classify(&event), InterruptLevel::P0);
}

#[test]
fn task_stage_changed_to_awaiting_approval_is_p1() {
    let event = DomainEvent::TaskStageChanged {
        from_stage: "work".into(),
        to_stage: "review".into(),
        new_state: TaskState::AwaitingApproval { approvers: vec![], approved_by: vec![] },
    };
    assert_eq!(classifier().classify(&event), InterruptLevel::P1);
}

#[test]
fn human_decision_rejected_is_p1() {
    let event = DomainEvent::HumanDecision {
        decided_by: "alice".into(),
        decision: HumanDecisionKind::Rejected { reason: "not good enough".into() },
        note: None,
    };
    assert_eq!(classifier().classify(&event), InterruptLevel::P1);
}

#[test]
fn agent_completed_is_p2() {
    let event = DomainEvent::AgentCompleted { agent_id: agent_id(), summary: None };
    assert_eq!(classifier().classify(&event), InterruptLevel::P2);
}

#[test]
fn task_stage_changed_to_in_progress_is_p2() {
    let event = DomainEvent::TaskStageChanged {
        from_stage: "pending".into(),
        to_stage: "work".into(),
        new_state: TaskState::InProgress,
    };
    assert_eq!(classifier().classify(&event), InterruptLevel::P2);
}

#[test]
fn task_stage_changed_to_pending_is_p2() {
    let event = DomainEvent::TaskStageChanged {
        from_stage: "work".into(),
        to_stage: "done".into(),
        new_state: TaskState::Pending,
    };
    assert_eq!(classifier().classify(&event), InterruptLevel::P2);
}

#[test]
fn agent_assigned_is_p2() {
    let event = DomainEvent::AgentAssigned { agent_id: agent_id(), agent_name: "bot-1".into() };
    assert_eq!(classifier().classify(&event), InterruptLevel::P2);
}

#[test]
fn task_completed_is_p2() {
    let event = DomainEvent::TaskCompleted { outcome: TaskOutcome::Success };
    assert_eq!(classifier().classify(&event), InterruptLevel::P2);
}

#[test]
fn task_unblocked_is_p2() {
    let event = DomainEvent::TaskUnblocked { resolution: None };
    assert_eq!(classifier().classify(&event), InterruptLevel::P2);
}

#[test]
fn human_decision_approved_is_p2() {
    let event = DomainEvent::HumanDecision {
        decided_by: "alice".into(),
        decision: HumanDecisionKind::Approved,
        note: None,
    };
    assert_eq!(classifier().classify(&event), InterruptLevel::P2);
}

#[test]
fn human_decision_redirected_is_p2() {
    let event = DomainEvent::HumanDecision {
        decided_by: "alice".into(),
        decision: HumanDecisionKind::Redirected {
            to_stage: "rework".into(),
            reason: "needs revision".into(),
        },
        note: None,
    };
    assert_eq!(classifier().classify(&event), InterruptLevel::P2);
}

#[test]
fn agent_output_is_p3() {
    let event = DomainEvent::AgentOutput { agent_id: agent_id(), output: "some log line".into() };
    assert_eq!(classifier().classify(&event), InterruptLevel::P3);
}

#[test]
fn task_priority_changed_is_p3() {
    let event = DomainEvent::TaskPriorityChanged { from: Priority::P2, to: Priority::P1 };
    assert_eq!(classifier().classify(&event), InterruptLevel::P3);
}

#[test]
fn task_created_is_p3() {
    let event = DomainEvent::TaskCreated {
        title: "New task".into(),
        description: "Do something".into(),
        initial_stage: "triage".into(),
        priority: Priority::P2,
        board_id: None,
    };
    assert_eq!(classifier().classify(&event), InterruptLevel::P3);
}

#[test]
fn all_variants_return_a_level() {
    let events = vec![
        DomainEvent::TaskBlocked { reason: "r".into() },
        DomainEvent::TaskUnblocked { resolution: Some("fixed".into()) },
        DomainEvent::TaskCompleted { outcome: TaskOutcome::Rejected { reason: "no".into() } },
        DomainEvent::TaskImported {
            source: "github".into(),
            external_id: "o/r#1".into(),
            external_url: "https://github.com/o/r/issues/1".into(),
        },
        DomainEvent::IntegrationConfigured,
    ];
    for e in &events {
        let level = classifier().classify(e);
        assert!(level <= InterruptLevel::P3);
    }
}

#[test]
fn push_and_list_by_tier() {
    let mut store = InMemoryNotificationStore::new();
    store.push(Notification::new(InterruptLevel::P0, "urgent".into()));
    store.push(Notification::new(InterruptLevel::P2, "info".into()));

    let decision_queue = store.list_by_tier(AttentionCategory::DecisionQueue);
    assert_eq!(decision_queue.len(), 1);
    assert_eq!(decision_queue[0].interrupt_level, InterruptLevel::P0);

    let digest = store.list_by_tier(AttentionCategory::NotificationDigest);
    assert_eq!(digest.len(), 1);
    assert_eq!(digest[0].interrupt_level, InterruptLevel::P2);
}

#[test]
fn list_by_tier_empty_returns_empty_vec() {
    let store = InMemoryNotificationStore::new();
    assert!(store.list_by_tier(AttentionCategory::DecisionQueue).is_empty());
}

#[test]
fn list_pending_returns_unacked_p0_and_p1() {
    let mut store = InMemoryNotificationStore::new();
    store.push(Notification::new(InterruptLevel::P0, "p0".into()));
    store.push(Notification::new(InterruptLevel::P1, "p1".into()));
    store.push(Notification::new(InterruptLevel::P2, "p2".into()));
    store.push(Notification::new(InterruptLevel::P3, "p3".into()));

    let pending = store.list_pending();
    assert_eq!(pending.len(), 2);
    assert!(pending
        .iter()
        .all(|n| matches!(n.interrupt_level, InterruptLevel::P0 | InterruptLevel::P1)));
}

#[test]
fn list_pending_excludes_acknowledged() {
    let mut store = InMemoryNotificationStore::new();
    let n = Notification::new(InterruptLevel::P0, "p0".into());
    let id = n.id;
    store.push(n);
    assert_eq!(store.list_pending().len(), 1);
    store.mark_acknowledged(id);
    assert_eq!(store.list_pending().len(), 0);
}

#[test]
fn mark_acknowledged_returns_true_when_found() {
    let mut store = InMemoryNotificationStore::new();
    let n = Notification::new(InterruptLevel::P1, "test".into());
    let id = n.id;
    store.push(n);
    assert!(store.mark_acknowledged(id));
}

#[test]
fn mark_acknowledged_returns_false_when_not_found() {
    let mut store = InMemoryNotificationStore::new();
    assert!(!store.mark_acknowledged(ulid::Ulid::new().0));
}

#[test]
fn count_by_level_zero_when_empty() {
    let store = InMemoryNotificationStore::new();
    assert_eq!(store.count_by_level(InterruptLevel::P0), 0);
}

#[test]
fn count_by_level_counts_correctly() {
    let mut store = InMemoryNotificationStore::new();
    store.push(Notification::new(InterruptLevel::P0, "a".into()));
    store.push(Notification::new(InterruptLevel::P0, "b".into()));
    store.push(Notification::new(InterruptLevel::P1, "c".into()));
    assert_eq!(store.count_by_level(InterruptLevel::P0), 2);
    assert_eq!(store.count_by_level(InterruptLevel::P1), 1);
    assert_eq!(store.count_by_level(InterruptLevel::P2), 0);
}

#[test]
fn route_task_blocked_creates_p0_notification() {
    let mut r = NotificationRouter::new();
    let n = r.route(&DomainEvent::TaskBlocked { reason: "awaiting dependency".into() });
    assert_eq!(n.interrupt_level, InterruptLevel::P0);
    assert_eq!(n.attention_category, AttentionCategory::DecisionQueue);
}

#[test]
fn route_task_created_creates_p3_notification() {
    let mut r = NotificationRouter::new();
    let n = r.route(&DomainEvent::TaskCreated {
        title: "New task".into(),
        description: "Desc".into(),
        initial_stage: "triage".into(),
        priority: Priority::P2,
        board_id: None,
    });
    assert_eq!(n.interrupt_level, InterruptLevel::P3);
    assert_eq!(n.attention_category, AttentionCategory::PassiveDashboard);
}

#[test]
fn route_awaiting_approval_transition_is_p1() {
    let mut r = NotificationRouter::new();
    let n = r.route(&DomainEvent::TaskStageChanged {
        from_stage: "work".into(),
        to_stage: "review".into(),
        new_state: TaskState::AwaitingApproval { approvers: vec![], approved_by: vec![] },
    });
    assert_eq!(n.interrupt_level, InterruptLevel::P1);
}

#[test]
fn route_stores_notification_in_store() {
    let mut r = NotificationRouter::new();
    r.route(&DomainEvent::AgentOutput { agent_id: agent_id(), output: "log line".into() });
    assert_eq!(r.store().list_by_tier(AttentionCategory::PassiveDashboard).len(), 1);
}

#[test]
fn route_agent_completed_goes_to_notification_digest() {
    let mut r = NotificationRouter::new();
    r.route(&DomainEvent::AgentCompleted { agent_id: agent_id(), summary: Some("done".into()) });
    assert_eq!(r.store().list_by_tier(AttentionCategory::NotificationDigest).len(), 1);
}

#[test]
fn route_rejected_decision_is_p1_in_decision_queue() {
    let mut r = NotificationRouter::new();
    let n = r.route(&DomainEvent::HumanDecision {
        decided_by: "alice".into(),
        decision: HumanDecisionKind::Rejected { reason: "not acceptable".into() },
        note: None,
    });
    assert_eq!(n.interrupt_level, InterruptLevel::P1);
    assert_eq!(n.attention_category, AttentionCategory::DecisionQueue);
}

#[test]
fn notification_summary_is_populated() {
    let mut r = NotificationRouter::new();
    let n = r.route(&DomainEvent::TaskBlocked { reason: "some reason".into() });
    assert!(n.summary.contains("some reason"));
}

#[test]
fn summary_text_of_blocked_task() {
    let mut r = NotificationRouter::new();
    let n = r.route(&DomainEvent::TaskBlocked { reason: "waiting".into() });
    assert_eq!(n.summary, "Task blocked: waiting");
}

fn make_store_with(levels: &[InterruptLevel]) -> InMemoryNotificationStore {
    let mut store = InMemoryNotificationStore::new();
    for &level in levels {
        store.push(Notification::new(level, "test".into()));
    }
    store
}

#[test]
fn empty_store_gives_zero_summary() {
    let store = InMemoryNotificationStore::new();
    let summary = AttentionSummary::from_store(&store);
    assert_eq!(summary, AttentionSummary::default());
    assert_eq!(summary.total(), 0);
    assert!(!summary.needs_attention());
}

#[test]
fn counts_all_levels_correctly() {
    let store = make_store_with(&[
        InterruptLevel::P0,
        InterruptLevel::P0,
        InterruptLevel::P1,
        InterruptLevel::P2,
        InterruptLevel::P2,
        InterruptLevel::P2,
        InterruptLevel::P3,
    ]);
    let summary = AttentionSummary::from_store(&store);
    assert_eq!(summary.p0_count, 2);
    assert_eq!(summary.p1_count, 1);
    assert_eq!(summary.p2_count, 3);
    assert_eq!(summary.p3_count, 1);
    assert_eq!(summary.total(), 7);
}

#[test]
fn pending_decisions_counts_unacked_p0_and_p1() {
    let mut store = InMemoryNotificationStore::new();
    let n_p0 = Notification::new(InterruptLevel::P0, "p0".into());
    let n_p1 = Notification::new(InterruptLevel::P1, "p1".into());
    let acked = Notification::new(InterruptLevel::P1, "p1-acked".into());
    let acked_id = acked.id;
    store.push(acked);
    store.push(n_p0);
    store.push(n_p1);
    store.mark_acknowledged(acked_id);
    let summary = AttentionSummary::from_store(&store);
    assert_eq!(summary.pending_decisions, 2);
}

#[test]
fn needs_attention_true_when_p0_exists() {
    let store = make_store_with(&[InterruptLevel::P0]);
    assert!(AttentionSummary::from_store(&store).needs_attention());
}

#[test]
fn needs_attention_true_when_p1_exists() {
    let store = make_store_with(&[InterruptLevel::P1]);
    assert!(AttentionSummary::from_store(&store).needs_attention());
}

#[test]
fn needs_attention_false_when_only_p2_p3() {
    let store = make_store_with(&[InterruptLevel::P2, InterruptLevel::P3]);
    assert!(!AttentionSummary::from_store(&store).needs_attention());
}

#[test]
fn summary_levels_partition_total() {
    let store = make_store_with(&[InterruptLevel::P1, InterruptLevel::P3, InterruptLevel::P3]);
    let s = AttentionSummary::from_store(&store);
    assert_eq!(s.p0_count + s.p1_count + s.p2_count + s.p3_count, 3);
    assert_eq!(s.total(), 3);
}

#[test]
fn debug_texts_match_derived_debug() {
    use_debug_texts();
}

fn use_debug_texts() {
    let outcomes = vec![
        TaskOutcome::Success,
        TaskOutcome::Rejected { reason: "bad \"x\"\n".into() },
        TaskOutcome::Abandoned { reason: "gone".into() },
    ];
    for o in &outcomes {
        assert_eq!(debug_outcome(o), format!("{:?}", o));
    }
    let decisions = vec![
        HumanDecisionKind::Approved,
        HumanDecisionKind::Rejected { reason: "no".into() },
        HumanDecisionKind::Redirected { to_stage: "review".into(), reason: "redo".into() },
    ];
    for d in &decisions {
        assert_eq!(debug_decision(d), format!("{:?}", d));
    }
}
