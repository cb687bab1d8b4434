use molt_hub_server::domain::{
    board_status_for_state, BoardStatus, DomainEvent, EventEnvelope, HumanDecisionKind, Priority,
    TaskState,
};
use molt_hub_server::projection::{board_tasks, task_detail, task_timeline, triage_items, DetailState, TriageKind};
use molt_hub_server::actor_events::{actor_notice, ActorNotice};
use molt_hub_server::task_list::task_summaries;
use molt_hub_server::task_requests::{
    check_move, check_move_fields, latest_session_and_project, parse_human_decision,
    check_awaiting_approval, decision_board, prepare_new_task, task_hook_metadata, CreateTaskRequest,
    DecisionError, DecisionPrecondition, HumanDecisionBody, decision_answer, human_decision_event,
    move_answer, stage_changed_event, task_created_event, TitleRequired, after_lifecycle_hooks, AfterHooks,
    MoveError, MoveTaskBody,
};
use molt_hub_server::event_queries::{events_selection, EventsQuery, EventsQueryError, EventsSelection};
use molt_hub_server::ids::UlidError;
use molt_hub_server::event_queries::{parse_event_id, parse_task_id};

fn ev(task: &str, ts: &str, payload: DomainEvent) -> EventEnvelope {
    EventEnvelope {
        id: format!("{task}-{ts}"),
        task_id: Some(task.into()),
        project_id: "default".into(),
        session_id: "sess".into(),
        timestamp: ts.into(),
        caused_by: None,
        payload,
    }
}

fn created(task: &str, ts: &str, title: &str, stage: &str, board: Option<&str>) -> EventEnvelope {
    ev(
        task,
        ts,
        DomainEvent::TaskCreated {
            title: title.into(),
            description: "d".into(),
            initial_stage: stage.into(),
            priority: Priority::P2,
            board_id: board.map(String::from),
        },
    )
}

#[test]
fn board_lists_newest_id_first_and_filters_board() {
    let log = vec![
        created("01A", "t1", "First", "backlog", Some("b1")),
        created("01B", "t2", "Second", "backlog", Some("b2")),
        ev("01A", "t3", DomainEvent::TaskBlocked { reason: "r".into() }),
    ];
    let all = board_tasks(&log, None);
    assert_eq!(all.iter().map(|t| t.id.as_str()).collect::<Vec<_>>(), vec!["01B", "01A"]);
    assert_eq!(all[1].status, BoardStatus::Blocked);
    let b1 = board_tasks(&log, Some("b1"));
    assert_eq!(b1.len(), 1);
    assert_eq!(b1[0].title, "First");
}

#[test]
fn triage_lists_blocked_and_reviewed_tasks() {
    let log = vec![
        created("01A", "t1", "Blocked one", "backlog", None),
        ev("01A", "t2", DomainEvent::TaskBlocked { reason: "r".into() }),
        created("01B", "t3", "Review me", "review", None),
        ev("01B", "t4", DomainEvent::AgentCompleted { agent_id: "ag".into(), summary: Some("ok".into()) }),
        created("01C", "t5", "Quiet", "backlog", None),
    ];
    let items = triage_items(&log);
    assert_eq!(items.len(), 2);
    let kinds: Vec<(String, TriageKind)> = items.iter().map(|i| (i.task.id.clone(), i.kind)).collect();
    assert!(kinds.contains(&("01A".to_string(), TriageKind::Info)));
    assert!(kinds.contains(&("01B".to_string(), TriageKind::Decision)));
}

#[test]
fn detail_and_timeline_of_task() {
    let events = vec![
        created("01A", "t1", "Title", "backlog", None),
        ev(
            "01A",
            "t2",
            DomainEvent::TaskStageChanged { from_stage: "backlog".into(), to_stage: "work".into(), new_state: TaskState::InProgress },
        ),
    ];
    let d = task_detail(&events).unwrap();
    assert_eq!(d.title, "Title");
    assert_eq!(d.current_stage, "work");
    assert_eq!(d.state, DetailState::InProgress);
    assert_eq!(d.state.as_str(), "in_progress");
    assert!(task_detail(&vec![]).is_none());
    let tl = task_timeline(&events);
    assert_eq!(tl.len(), 2);
    assert_eq!(tl[0].event_type, "task_created");
}

#[test]
fn human_decision_parsing() {
    fn body(kind: &str, reason: Option<&str>, to: Option<&str>, by: Option<&str>) -> HumanDecisionBody {
        HumanDecisionBody {
            board_id: "b1".into(),
            kind: kind.into(),
            reason: reason.map(String::from),
            to_stage: to.map(String::from),
            decided_by: by.map(String::from),
        }
    }
    let stages = vec!["backlog".to_string(), "review".to_string()];
    let (who, d) = parse_human_decision(&body(" Approved ", None, None, None), &stages).unwrap();
    assert_eq!(who, "user");
    assert_eq!(d, HumanDecisionKind::Approved);
    let (who, d) = parse_human_decision(&body(" REJECTED", Some(" bad "), None, Some("bob")), &stages).unwrap();
    assert_eq!(who, "bob");
    assert_eq!(d, HumanDecisionKind::Rejected { reason: "bad".into() });
    assert_eq!(parse_human_decision(&body("maybe", None, None, None), &stages).unwrap_err(), DecisionError::InvalidKind);
    assert_eq!(
        parse_human_decision(&body("redirected", None, None, None), &stages).unwrap_err(),
        DecisionError::ToStageRequired
    );
    assert_eq!(
        parse_human_decision(&body("Redirected", None, Some("nowhere"), None), &stages).unwrap_err(),
        DecisionError::UnknownStage("nowhere".into())
    );
    let (_, d) = parse_human_decision(&body("redirected", Some("x"), Some(" review "), None), &stages).unwrap();
    assert_eq!(d, HumanDecisionKind::Redirected { to_stage: "review".into(), reason: "x".into() });
}

#[test]
fn move_checks() {
    let mv = |t: &str, b: &str| MoveTaskBody { to_stage: t.into(), board_id: b.into() };
    assert_eq!(check_move_fields(&mv(" ", "b")).unwrap_err(), MoveError::MissingFields);
    assert_eq!(check_move_fields(&mv(" review ", " b1 ")).unwrap(), ("review".to_string(), "b1".to_string()));
    let stages = vec!["backlog".to_string(), "review".to_string()];
    assert_eq!(check_move(&stages, "backlog", "done", false), Err(MoveError::UnknownStage("done".into())));
    assert_eq!(check_move(&stages, "backlog", "review", true), Err(MoveError::Terminal));
    assert_eq!(check_move(&stages, "review", "review", false), Err(MoveError::SameStage));
    assert_eq!(check_move(&stages, "backlog", "review", false), Ok(()));
}

#[test]
fn new_task_defaults() {
    let req = |title: &str, stage: Option<&str>| CreateTaskRequest {
        title: title.into(),
        description: None,
        initial_stage: stage.map(String::from),
        project_id: None,
        board_id: None,
    };
    assert!(prepare_new_task(&req("   ", None)).is_none());
    let t = prepare_new_task(&req(" Write docs ", Some(" "))).unwrap();
    assert_eq!(t.title, "Write docs");
    assert_eq!(t.stage, "backlog");
    assert_eq!(t.description, "");
    assert_eq!(t.project, "default");
}

#[test]
fn hook_metadata_and_latest_session() {
    let events = vec![created("01A", "t1", "Title", "backlog", None)];
    let (_, _, _, title) = task_hook_metadata(&events);
    assert_eq!(title.as_deref(), Some("Title"));
    let (session, project) = latest_session_and_project(&events);
    assert_eq!(session.as_deref(), Some("sess"));
    assert_eq!(project, "default");
    let (session, project) = latest_session_and_project(&vec![]);
    assert_eq!(session, None);
    assert_eq!(project, "default");
}

#[test]
fn board_status_of_states() {
    assert_eq!(board_status_for_state(&TaskState::Pending), BoardStatus::Waiting);
    assert_eq!(board_status_for_state(&TaskState::InProgress), BoardStatus::Running);
    assert_eq!(board_status_for_state(&TaskState::Failed { reason: "x".into() }), BoardStatus::Blocked);
}

#[test]
fn task_list_groups_counts_and_orders_by_latest_event() {
    let mut orphan = ev("x", "2024-01-01T00:00:05+00:00", DomainEvent::IntegrationConfigured);
    orphan.task_id = None;
    orphan.project_id = "proj".into();
    let log = vec![
        created("01A", "2024-01-01T00:00:01+00:00", "Alpha", "backlog", None),
        created("01B", "2024-01-01T00:00:02+00:00", "Beta", "backlog", None),
        ev("01A", "2024-01-01T00:00:03+00:00", DomainEvent::TaskBlocked { reason: "r".into() }),
        orphan,
        created("01A", "2024-01-01T00:00:04+00:00", "Alpha again", "backlog", None),
    ];
    let list = task_summaries(&log);
    assert_eq!(list.len(), 3);
    assert_eq!(list[0].task_id, "proj");
    assert_eq!(list[0].title, None);
    assert_eq!(list[0].event_count, 1);
    assert_eq!(list[1].task_id, "01A");
    assert_eq!(list[1].title.as_deref(), Some("Alpha again"));
    assert_eq!(list[1].event_count, 3);
    assert_eq!(list[1].last_event_at.as_deref(), Some("2024-01-01T00:00:04+00:00"));
    assert_eq!(list[2].task_id, "01B");
    assert_eq!(list[2].event_count, 1);
    let total: usize = list.iter().map(|s| s.event_count).sum();
    assert_eq!(total, log.len());
    assert!(task_summaries(&Vec::new()).is_empty());
}

#[test]
fn events_query_selects_task_then_since_then_all() {
    let id = "01ARZ3NDEKTSV4RRFFQ69G5FAV";
    let value = ulid::Ulid::from_string(id).unwrap().0;
    let q = EventsQuery { task_id: Some(id.into()), since: Some("garbage".into()) };
    assert_eq!(events_selection(&q), Ok(EventsSelection::ForTask(value)));
    let q = EventsQuery { task_id: Some("short".into()), since: None };
    let err = events_selection(&q).unwrap_err();
    assert_eq!(err, EventsQueryError::InvalidTaskId(UlidError::InvalidLength));
    assert_eq!(err.message(), "invalid task_id: invalid length");
    let q = EventsQuery { task_id: Some("01ARZ3NDEKTSV4RRFFQ69G5F!V".into()), since: None };
    assert_eq!(events_selection(&q).unwrap_err().message(), "invalid task_id: invalid character");
    let q = EventsQuery { task_id: None, since: Some("1970-01-01T00:00:10.5Z".into()) };
    assert_eq!(events_selection(&q), Ok(EventsSelection::Since(10, 500_000_000)));
    let q = EventsQuery { task_id: None, since: Some("yesterday".into()) };
    let msg = events_selection(&q).unwrap_err().message();
    assert!(msg.starts_with("invalid since timestamp: "));
    assert!(msg.len() > "invalid since timestamp: ".len());
    let q = EventsQuery { task_id: None, since: None };
    assert_eq!(events_selection(&q), Ok(EventsSelection::All));
}

#[test]
fn event_and_task_ids_from_paths() {
    let id = "01ARZ3NDEKTSV4RRFFQ69G5FAV";
    let value = ulid::Ulid::from_string(id).unwrap().0;
    assert_eq!(parse_task_id(&format!("  {id} ")), Ok(value));
    assert_eq!(parse_task_id("nope").unwrap_err(), "invalid task id: invalid length");
    assert_eq!(parse_event_id(id), Ok(value));
    assert_eq!(parse_event_id(&format!(" {id}")).unwrap_err(), "invalid event id: invalid length");
}

#[test]
fn decision_and_move_error_messages() {
    assert_eq!(DecisionError::InvalidKind.message(), "kind must be approved, rejected, or redirected");
    assert_eq!(DecisionError::ToStageRequired.message(), "toStage is required for redirected");
    assert_eq!(DecisionError::UnknownStage("qa".into()).message(), "unknown stage 'qa'");
    assert_eq!(MoveError::MissingFields.message(), "toStage and boardId are required");
    assert_eq!(MoveError::UnknownStage("qa".into()).message(), "unknown stage 'qa'");
    assert_eq!(MoveError::Terminal.message(), "task is in a terminal state");
    assert_eq!(MoveError::SameStage.message(), "task is already in this stage");
}

#[test]
fn actor_announces_triage_and_output() {
    let out = DomainEvent::AgentOutput { agent_id: "ag".into(), output: "hello".into() };
    assert_eq!(
        actor_notice(&out, &TaskState::InProgress),
        ActorNotice::AgentOutput { agent_id: "ag".into(), output: "hello".into() }
    );
    let blocked = DomainEvent::TaskBlocked { reason: "disk full".into() };
    assert_eq!(
        actor_notice(&blocked, &TaskState::Blocked { reason: "disk full".into() }),
        ActorNotice::TriageNew { priority: "p0".into(), summary: "Task blocked: disk full".into() }
    );
    let done = DomainEvent::AgentCompleted { agent_id: "ag".into(), summary: None };
    let awaiting = TaskState::AwaitingApproval { approvers: vec![], approved_by: vec![] };
    assert_eq!(
        actor_notice(&done, &awaiting),
        ActorNotice::TriageNew { priority: "p1".into(), summary: "Awaiting human approval".into() }
    );
    assert_eq!(actor_notice(&done, &TaskState::Pending), ActorNotice::Nothing);
    let unblocked = DomainEvent::TaskUnblocked { resolution: None };
    assert_eq!(actor_notice(&unblocked, &TaskState::InProgress), ActorNotice::TriageResolved);
    let decision = DomainEvent::HumanDecision {
        decided_by: "u".into(),
        decision: HumanDecisionKind::Approved,
        note: None,
    };
    let completed = TaskState::Completed { outcome: molt_hub_server::domain::TaskOutcome::Success };
    assert_eq!(actor_notice(&decision, &completed), ActorNotice::TriageResolved);
    assert_eq!(actor_notice(&decision, &TaskState::Pending), ActorNotice::Nothing);
}

#[test]
fn get_tasks_empty_returns_ok() {
    assert_eq!(task_summaries(&Vec::new()).len(), 0);
}

#[test]
fn get_tasks_groups_by_task_id() {
    let task_a = ulid::Ulid::new().to_string();
    let task_b = ulid::Ulid::new().to_string();
    let now = chrono::Utc::now().to_rfc3339();
    let log = vec![
        created(&task_a, &now, "Task A", "backlog", None),
        created(&task_b, &now, "Task B", "backlog", None),
        ev(&task_a, &now, DomainEvent::TaskBlocked { reason: "blocked for test".to_string() }),
    ];
    let tasks = task_summaries(&log);
    assert_eq!(tasks.len(), 2);
    let task_a_summary = tasks.iter().find(|t| t.task_id == task_a).unwrap();
    assert_eq!(task_a_summary.title.as_deref(), Some("Task A"));
    assert_eq!(task_a_summary.event_count, 2);
}

#[test]
fn get_events_invalid_task_id_returns_400() {
    let q = EventsQuery { task_id: Some("not-a-ulid".into()), since: None };
    assert!(matches!(events_selection(&q), Err(EventsQueryError::InvalidTaskId(_))));
}

#[test]
fn get_event_invalid_id_returns_400() {
    assert!(parse_event_id("not-a-ulid").is_err());
}

#[test]
fn decision_preconditions() {
    let body = |b: &str| HumanDecisionBody {
        board_id: b.into(),
        kind: "approved".into(),
        reason: None,
        to_stage: None,
        decided_by: None,
    };
    assert_eq!(decision_board(&body("  ")), Err(DecisionPrecondition::BoardRequired));
    assert_eq!(decision_board(&body(" b1 ")), Ok("b1".to_string()));
    assert_eq!(DecisionPrecondition::BoardRequired.message(), "boardId is required");
    assert_eq!(check_awaiting_approval(&TaskState::Pending), Err(DecisionPrecondition::NotAwaitingApproval));
    let awaiting = TaskState::AwaitingApproval { approvers: vec![], approved_by: vec![] };
    assert_eq!(check_awaiting_approval(&awaiting), Ok(()));
    assert_eq!(DecisionPrecondition::NotAwaitingApproval.message(), "task is not awaiting human approval");
}

#[test]
fn board_marks_agent_completion_in_deployed_stage_complete() {
    let log = vec![
        created("01A", "t1", "t", "deployed", None),
        ev("01A", "t2", DomainEvent::AgentAssigned { agent_id: "ag".into(), agent_name: "n".into() }),
        ev("01A", "t3", DomainEvent::AgentCompleted { agent_id: "ag".into(), summary: None }),
    ];
    assert_eq!(board_tasks(&log, None)[0].status, BoardStatus::Complete);
}

#[test]
fn board_filter_keeps_tasks_without_board() {
    let log = vec![
        created("01T", "t1", "No board", "backlog", None),
        created("01U", "t2", "Other board", "backlog", Some("x")),
        created("01V", "t3", "This board", "backlog", Some("b")),
    ];
    let ids: Vec<String> = board_tasks(&log, Some("b")).into_iter().map(|t| t.id).collect();
    assert_eq!(ids, vec!["01V".to_string(), "01T".to_string()]);
}

#[test]
fn appended_events_follow_the_task_log() {
    let id = "01ARZ3NDEKTSV4RRFFQ69G5FAV";
    let value = ulid::Ulid::from_string(id).unwrap().0;
    let mut last = created(id, "t1", "T", "review", None);
    last.session_id = "sess-7".into();
    last.project_id = "proj-3".into();
    let events = vec![last];
    let e = human_decision_event(value, &events, "user".into(), HumanDecisionKind::Rejected { reason: "too big".into() });
    assert_eq!(e.task_id.as_deref(), Some(id));
    assert_eq!(e.session_id, "sess-7");
    assert_eq!(e.project_id, "proj-3");
    assert_eq!(e.caused_by, None);
    assert_eq!(
        e.payload,
        DomainEvent::HumanDecision {
            decided_by: "user".into(),
            decision: HumanDecisionKind::Rejected { reason: "too big".into() },
            note: None,
        }
    );
    let m = stage_changed_event(value, &Vec::new(), "backlog".into(), "review".into(), TaskState::Pending);
    assert_eq!(m.project_id, "default");
    assert!(ulid::Ulid::from_string(&m.session_id).is_ok());
    assert_eq!(
        m.payload,
        DomainEvent::TaskStageChanged { from_stage: "backlog".into(), to_stage: "review".into(), new_state: TaskState::Pending }
    );
    let a = move_answer(value, "review".into(), &TaskState::InProgress);
    assert_eq!((a.task_id.as_str(), a.stage.as_str(), a.status), (id, "review", BoardStatus::Running));
    let d = decision_answer(value, &TaskState::Pending);
    assert_eq!(d.status, BoardStatus::Waiting);
}

#[test]
fn create_task_event_defaults() {
    let req = CreateTaskRequest {
        title: "  Write docs ".into(),
        description: None,
        initial_stage: None,
        project_id: Some(" p1 ".into()),
        board_id: Some("b1".into()),
    };
    let c = task_created_event(&req).unwrap();
    assert_eq!(c.topic, "p1");
    assert_eq!(c.event.project_id, "default");
    assert!(ulid::Ulid::from_string(c.event.task_id.as_deref().unwrap()).is_ok());
    assert_eq!(
        c.event.payload,
        DomainEvent::TaskCreated {
            title: "Write docs".into(),
            description: String::new(),
            initial_stage: "backlog".into(),
            priority: Priority::P2,
            board_id: Some("b1".into()),
        }
    );
    let blank = CreateTaskRequest { title: " ".into(), description: None, initial_stage: None, project_id: None, board_id: None };
    assert_eq!(task_created_event(&blank).unwrap_err(), TitleRequired);
    assert_eq!(TitleRequired.message(), "title is required");
}

#[test]
fn hook_failure_appends_nothing() {
    let e = created("01A", "t1", "T", "backlog", None);
    assert_eq!(
        after_lifecycle_hooks(e.clone(), Some("hook exploded".into())),
        AfterHooks::Refuse { status: 502, error: "hook exploded".into() }
    );
    assert_eq!(after_lifecycle_hooks(e.clone(), None), AfterHooks::Append(e));
}
