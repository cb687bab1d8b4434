use molt_hub_server::approvals::{
    ApprovalDecision, ApprovalId, ApprovalRecord, ApprovalRequest, ApprovalService,
    ApprovalServiceError, ApprovalStatus, ApprovalStoreError, MemoryApprovalStore,
};
use molt_hub_server::domain::{DomainEvent, HumanDecisionKind};

fn request(task_id: &str, required_count: usize, approvers: Vec<String>) -> ApprovalRequest {
    ApprovalRequest {
        id: ApprovalId::new(),
        task_id: task_id.into(),
        session_id: ulid::Ulid::new().to_string(),
        stage: "review".into(),
        required_count,
        required_approvers: approvers,
        created_at: 0,
        timeout_at: None,
        decisions: vec![],
        status: ApprovalStatus::Pending,
    }
}

fn approve(who: &str) -> ApprovalDecision {
    ApprovalDecision::Approved { approver: who.into(), comment: None }
}

#[test]
fn approval_request_counts_approvals() {
    let mut req = request("t1", 2, vec![]);
    assert_eq!(req.approval_count(), 0);
    assert!(!req.threshold_met());

    req.decisions.push(ApprovalRecord { approver: "alice".into(), decision: approve("alice"), recorded_at: 0 });
    assert_eq!(req.approval_count(), 1);
    assert!(!req.threshold_met());

    req.decisions.push(ApprovalRecord { approver: "bob".into(), decision: approve("bob"), recorded_at: 0 });
    assert_eq!(req.approval_count(), 2);
    assert!(req.threshold_met());
}

#[test]
fn has_decided_detects_prior_approver() {
    let mut req = request("t1", 1, vec![]);
    assert!(!req.has_decided("alice"));
    req.decisions.push(ApprovalRecord { approver: "alice".into(), decision: approve("alice"), recorded_at: 0 });
    assert!(req.has_decided("alice"));
    assert!(!req.has_decided("bob"));
}

#[test]
fn store_create_and_get() {
    let mut store = MemoryApprovalStore::new();
    let req = request("task-1", 1, vec![]);
    let id = req.id.clone();
    store.create(req).unwrap();
    let fetched = store.get(&id).unwrap();
    assert_eq!(fetched.task_id, "task-1");
}

#[test]
fn store_rejects_duplicate_for_same_task() {
    let mut store = MemoryApprovalStore::new();
    store.create(request("task-1", 1, vec![])).unwrap();
    let err = store.create(request("task-1", 1, vec![])).unwrap_err();
    assert_eq!(err, ApprovalStoreError::AlreadyExists("task-1".into()));
}

#[test]
fn store_list_pending_returns_only_pending() {
    let mut store = MemoryApprovalStore::new();
    let a = request("a", 1, vec![]);
    let a_id = a.id.clone();
    store.create(a).unwrap();
    store.create(request("b", 1, vec![])).unwrap();
    store.create(request("c", 1, vec![])).unwrap();
    store.record_decision(&a_id, approve("alice")).unwrap();
    assert_eq!(store.list_pending().len(), 2);
}

#[test]
fn store_record_approval_keeps_pending_until_threshold() {
    let mut store = MemoryApprovalStore::new();
    let r = request("t", 2, vec![]);
    let id = r.id.clone();
    store.create(r).unwrap();
    let updated = store.record_decision(&id, approve("alice")).unwrap();
    assert_eq!(updated.status, ApprovalStatus::Pending);
    assert_eq!(updated.approval_count(), 1);
    let updated = store.record_decision(&id, approve("bob")).unwrap();
    assert_eq!(updated.status, ApprovalStatus::Approved);
    assert_eq!(updated.approval_count(), 2);
}

#[test]
fn store_record_rejection_closes_immediately() {
    let mut store = MemoryApprovalStore::new();
    let r = request("t", 3, vec![]);
    let id = r.id.clone();
    store.create(r).unwrap();
    let updated = store
        .record_decision(&id, ApprovalDecision::Rejected { approver: "alice".into(), reason: "no".into() })
        .unwrap();
    assert_eq!(updated.status, ApprovalStatus::Rejected { reason: "no".into() });
    let err = store.record_decision(&id, approve("bob")).unwrap_err();
    assert_eq!(err, ApprovalStoreError::AlreadyClosed(id));
}

#[test]
fn store_record_redirected_closes_immediately() {
    let mut store = MemoryApprovalStore::new();
    let r = request("t", 3, vec![]);
    let id = r.id.clone();
    store.create(r).unwrap();
    let updated = store
        .record_decision(
            &id,
            ApprovalDecision::Redirected {
                approver: "alice".into(),
                target_stage: "rework".into(),
                reason: "again".into(),
            },
        )
        .unwrap();
    assert_eq!(updated.status, ApprovalStatus::Redirected { target_stage: "rework".into() });
}

#[test]
fn store_refuses_second_decision_by_same_approver() {
    let mut store = MemoryApprovalStore::new();
    let r = request("t", 2, vec![]);
    let id = r.id.clone();
    store.create(r).unwrap();
    store.record_decision(&id, approve("alice")).unwrap();
    let err = store.record_decision(&id, approve("alice")).unwrap_err();
    assert_eq!(err, ApprovalStoreError::AlreadyDecided { approver: "alice".into(), id });
}

#[test]
fn store_refuses_unnamed_approver() {
    let mut store = MemoryApprovalStore::new();
    let r = request("t", 1, vec!["alice".into()]);
    let id = r.id.clone();
    store.create(r).unwrap();
    let err = store.record_decision(&id, approve("mallory")).unwrap_err();
    assert_eq!(err, ApprovalStoreError::Unauthorised("mallory".into()));
}

#[test]
fn store_unknown_id_is_not_found() {
    let mut store = MemoryApprovalStore::new();
    let id = ApprovalId::new();
    assert_eq!(store.get(&id).unwrap_err(), ApprovalStoreError::NotFound(id.clone()));
    assert_eq!(store.record_decision(&id, approve("a")).unwrap_err(), ApprovalStoreError::NotFound(id));
}

#[test]
fn service_opens_request_and_forwards_final_decision() {
    let mut svc = ApprovalService::new(MemoryApprovalStore::new());
    let req = svc
        .open_request("task-9".into(), "s".into(), "review".into(), 0, vec![], Some(60))
        .unwrap();
    assert_eq!(req.required_count, 1);
    assert!(req.timeout_at.is_some());
    let dup = svc.open_request("task-9".into(), "s".into(), "review".into(), 1, vec![], None);
    assert_eq!(
        dup.unwrap_err(),
        ApprovalServiceError::Store(ApprovalStoreError::AlreadyExists("task-9".into()))
    );
    let (updated, event) = svc.record_decision("task-9", approve("alice")).unwrap();
    assert_eq!(updated.status, ApprovalStatus::Approved);
    match event {
        Some(DomainEvent::HumanDecision { decided_by, decision, .. }) => {
            assert_eq!(decided_by, "alice");
            assert_eq!(decision, HumanDecisionKind::Approved);
        }
        other => panic!("unexpected event {other:?}"),
    }
}

#[test]
fn service_without_pending_request() {
    let mut svc = ApprovalService::new(MemoryApprovalStore::new());
    let err = svc.record_decision("nope", approve("a")).unwrap_err();
    assert_eq!(err, ApprovalServiceError::NoPendingRequest("nope".into()));
}

#[test]
fn decision_accessors() {
    let d = ApprovalDecision::Rejected { approver: "bob".into(), reason: "bad".into() };
    assert_eq!(d.approver(), "bob");
    assert_eq!(d.to_domain_kind(), HumanDecisionKind::Rejected { reason: "bad".into() });
    assert_eq!(d.note(), Some("bad".into()));
}

#[test]
fn service_open_request_with_timeout_populates_timeout_at() {
    let mut svc = ApprovalService::new(MemoryApprovalStore::new());
    let req = svc
        .open_request("task-t".into(), "s".into(), "review".into(), 2, vec![], Some(30))
        .unwrap();
    assert_eq!(req.timeout_at, Some(req.created_at + 30_000));
    assert!(req.timeout_at.unwrap() > chrono::Utc::now().timestamp_millis());
    assert_eq!(req.required_count, 2);
    let none = svc
        .open_request("task-u".into(), "s".into(), "review".into(), 1, vec![], None)
        .unwrap();
    assert_eq!(none.timeout_at, None);
}
