use molt_hub_server::audit::{recent_entries, AuditAction, AuditEntry, AuditQuery};

fn entry(action: AuditAction, actor: &str) -> AuditEntry {
    AuditEntry::now(action, actor.to_string(), "{}".to_string())
}

#[test]
fn audit_entry_now_stamps_timestamp() {
    let entry = AuditEntry::now(AuditAction::Spawn, "agent-1".to_string(), "{}".to_string());
    assert_eq!(entry.action, AuditAction::Spawn);
    assert_eq!(entry.actor_id, "agent-1");
    let stamped = chrono::DateTime::parse_from_rfc3339(&entry.timestamp).unwrap();
    let delta = chrono::Utc::now().signed_duration_since(stamped);
    assert!(delta.num_seconds() < 2);
}

#[test]
fn audit_action_serialises_snake_case() {
    assert_eq!(AuditAction::Import.as_str(), "import");
    assert_eq!(AuditAction::Spawn.as_str(), "spawn");
    assert_eq!(AuditAction::Send.as_str(), "send");
    assert_eq!(AuditAction::Terminate.as_str(), "terminate");
}

#[test]
fn audit_action_filter_is_case_insensitive() {
    assert_eq!(AuditAction::from_str_loose("Spawn"), Some(AuditAction::Spawn));
    assert_eq!(AuditAction::from_str_loose("TERMINATE"), Some(AuditAction::Terminate));
    assert_eq!(AuditAction::from_str_loose("import"), Some(AuditAction::Import));
    assert_eq!(AuditAction::from_str_loose("sending"), None);
    let q = AuditQuery { action: Some("Send".into()), limit: None };
    assert_eq!(q.action_filter(), Some(AuditAction::Send));
    let q = AuditQuery { action: Some("bogus".into()), limit: None };
    assert_eq!(q.action_filter(), None);
}

#[test]
fn audit_query_limit_defaults_and_caps() {
    assert_eq!(AuditQuery { action: None, limit: None }.effective_limit(), 100);
    assert_eq!(AuditQuery { action: None, limit: Some(3) }.effective_limit(), 3);
    assert_eq!(AuditQuery { action: None, limit: Some(5000) }.effective_limit(), 1000);
}

#[test]
fn get_audit_returns_empty_array_initially() {
    let q = AuditQuery { action: None, limit: None };
    assert!(recent_entries(&Vec::new(), q.effective_limit(), q.action_filter()).is_empty());
}

#[test]
fn get_audit_returns_logged_entries() {
    let log = vec![entry(AuditAction::Spawn, "agent-1"), entry(AuditAction::Send, "agent-1")];
    let q = AuditQuery { action: None, limit: None };
    let arr = recent_entries(&log, q.effective_limit(), q.action_filter());
    assert_eq!(arr.len(), 2);
    assert_eq!(arr[0].action.as_str(), "send");
}

#[test]
fn get_audit_filters_by_action() {
    let log = vec![
        entry(AuditAction::Spawn, "s1"),
        entry(AuditAction::Send, "d1"),
        entry(AuditAction::Spawn, "s2"),
    ];
    let q = AuditQuery { action: Some("Spawn".into()), limit: None };
    let arr = recent_entries(&log, q.effective_limit(), q.action_filter());
    assert_eq!(arr.len(), 2);
    for e in &arr {
        assert_eq!(e.action.as_str(), "spawn");
    }
    assert_eq!(arr[0].actor_id, "s2");
    assert_eq!(arr[1].actor_id, "s1");
}

#[test]
fn get_audit_respects_limit() {
    let log: Vec<AuditEntry> = (0..10).map(|i| entry(AuditAction::Spawn, &format!("a{i}"))).collect();
    let q = AuditQuery { action: None, limit: Some(3) };
    let arr = recent_entries(&log, q.effective_limit(), q.action_filter());
    assert_eq!(arr.len(), 3);
    assert_eq!(arr[0].actor_id, "a9");
    assert_eq!(arr[2].actor_id, "a7");
}
