use molt_hub_server::agents::output_buffer::{flush_partial, split_output, AgentOutputBuffer, OutputLine};
use molt_hub_server::agents::requests::{
    agent_action_response, agent_output_response, agents_list_response, check_spawn_adapter,
    check_working_dir, harness_command, heuristic_title_from_draft,
    invalid_agent_id_response, login_adapter_type, login_failure_detail,
    resolve_spawn_adapter_type, sanitize_suggested_title, settings_adapter_kind, spawn_adapter_config,
    spawn_failure_response, spawn_success, steer_failure_response, steer_priority,
    task_title_prompt, title_suggestion_outcome, title_suggestion_timeout, AgentAction,
    AgentResponse, HarnessEntry, SpawnFailure, SteerFailure, SteerPriority, TitleSuggestion,
};
use molt_hub_server::agents::worktree_registry::WorktreeRegistry;
use molt_hub_server::integrations::json::JsonValue;

#[test]
fn push_and_get_lines() {
    let mut buf = AgentOutputBuffer::new();
    buf.push("agent-1", "line one".into());
    buf.push("agent-1", "line two".into());
    let lines = buf.get_lines("agent-1");
    assert_eq!(lines.len(), 2);
    assert_eq!(lines[0].line, "line one");
    assert_eq!(lines[1].line, "line two");
}

#[test]
fn get_lines_empty_agent() {
    let buf = AgentOutputBuffer::new();
    assert!(buf.get_lines("nonexistent").is_empty());
}

#[test]
fn capacity_eviction() {
    let mut buf = AgentOutputBuffer::with_capacity(3);
    buf.push("a", "1".into());
    buf.push("a", "2".into());
    buf.push("a", "3".into());
    buf.push("a", "4".into());
    let lines = buf.get_lines("a");
    assert_eq!(lines.len(), 3);
    assert_eq!(lines[0].line, "2");
    assert_eq!(lines[1].line, "3");
    assert_eq!(lines[2].line, "4");
}

#[test]
fn clear_agent() {
    let mut buf = AgentOutputBuffer::new();
    buf.push("a", "data".into());
    assert_eq!(buf.agent_count(), 1);
    buf.clear_agent("a");
    assert_eq!(buf.agent_count(), 0);
    assert!(buf.get_lines("a").is_empty());
}

#[test]
fn multiple_agents_isolated() {
    let mut buf = AgentOutputBuffer::new();
    buf.push("a", "alpha".into());
    buf.push("b", "beta".into());
    assert_eq!(buf.get_lines("a").len(), 1);
    assert_eq!(buf.get_lines("b").len(), 1);
    assert_eq!(buf.get_lines("a")[0].line, "alpha");
    assert_eq!(buf.get_lines("b")[0].line, "beta");
}

#[test]
fn output_line_has_timestamp() {
    let mut buf = AgentOutputBuffer::new();
    buf.push("a", "hello".into());
    let lines = buf.get_lines("a");
    assert!(lines[0].timestamp <= chrono::Utc::now().timestamp_millis());
}

#[test]
fn split_output_keeps_partial_line() {
    let (lines, rest) = split_output("par", "tial\n\nnext\nrest");
    assert_eq!(lines, vec!["partial", "next"]);
    assert_eq!(rest, "rest");
}

#[test]
fn flush_partial_drops_carriage_returns() {
    assert_eq!(flush_partial("done\r\r"), Some("done".to_string()));
    assert_eq!(flush_partial("\r"), None);
}

#[test]
fn worktree_registry_record_then_take_once() {
    let mut reg = WorktreeRegistry::new();
    let agent = ulid::Ulid::new().0;
    reg.record(agent, "/repo".into());
    assert_eq!(reg.take_repo_for_agent(agent), Some("/repo".to_string()));
    assert_eq!(reg.take_repo_for_agent(agent), None);
}

#[test]
fn known_adapter_types_accepted() {
    let known = vec!["goose".to_string(), "gemini".to_string(), "acp".to_string()];
    assert!(check_spawn_adapter("goose", &known).is_ok());
    let (code, msg) = check_spawn_adapter("bogus", &known).unwrap_err();
    assert_eq!(code, 400);
    assert_eq!(msg, "unknown adapter_type \"bogus\"; valid values: goose, gemini, acp");
}

#[test]
fn settings_adapter_kind_trims() {
    assert_eq!(settings_adapter_kind("  opencode \n"), "opencode");
}

#[test]
fn spawn_adapter_type_falls_back_to_settings() {
    assert_eq!(resolve_spawn_adapter_type("   ", "gemini"), "gemini");
    assert_eq!(resolve_spawn_adapter_type(" goose ", "gemini"), "goose");
}

#[test]
fn task_title_prompt_appends_trimmed_draft() {
    let p = task_title_prompt("  fix the login bug \n");
    assert!(p.starts_with("You are helping label a task in a tracker."));
    assert!(p.ends_with("Base it on this draft:\n\nfix the login bug"));
}

#[test]
fn title_timeout_is_clamped() {
    assert_eq!(title_suggestion_timeout(0), 15);
    assert_eq!(title_suggestion_timeout(1), 60);
    assert_eq!(title_suggestion_timeout(2), 120);
    assert_eq!(title_suggestion_timeout(u32::MAX), 120);
}

#[test]
fn sanitize_strips_quotes_and_extra_lines() {
    assert_eq!(sanitize_suggested_title("  \"Fix login\"  "), "Fix login");
    assert_eq!(sanitize_suggested_title("`First`\nsecond line"), "First`");
    assert_eq!(sanitize_suggested_title("`First\nsecond`"), "First");
    let long: String = std::iter::repeat('x').take(150).collect();
    assert_eq!(sanitize_suggested_title(&long).chars().count(), 100);
}

#[test]
fn heuristic_title_uses_first_nonblank_line() {
    assert_eq!(heuristic_title_from_draft("\n   \n  Refactor parser  \nmore"), "Refactor parser");
    assert_eq!(heuristic_title_from_draft("   "), "");
}

#[test]
fn title_suggestion_prefers_agent_reply() {
    match title_suggestion_outcome("draft text", Some("'Nice title'")) {
        TitleSuggestion::Title { title, source } => {
            assert_eq!(title, "Nice title");
            assert_eq!(source, "acp");
        }
        other => panic!("unexpected {other:?}"),
    }
    match title_suggestion_outcome("draft text", None) {
        TitleSuggestion::Title { title, source } => {
            assert_eq!(title, "draft text");
            assert_eq!(source, "heuristic");
        }
        other => panic!("unexpected {other:?}"),
    }
    match title_suggestion_outcome("  ", None) {
        TitleSuggestion::Error { status, message } => {
            assert_eq!(status, 400);
            assert_eq!(message, "text must not be empty");
        }
        other => panic!("unexpected {other:?}"),
    }
    match title_suggestion_outcome("\"\"", Some("")) {
        TitleSuggestion::Error { status, .. } => assert_eq!(status, 422),
        other => panic!("unexpected {other:?}"),
    }
}

#[test]
fn harness_command_of_first_enabled_match() {
    let hs = vec![
        HarnessEntry { adapter_type: "goose".into(), enabled: false, command: Some("old".into()) },
        HarnessEntry { adapter_type: "goose".into(), enabled: true, command: Some("goose-cli".into()) },
        HarnessEntry { adapter_type: "goose".into(), enabled: true, command: Some("later".into()) },
    ];
    assert_eq!(harness_command(&hs, "goose"), Some("goose-cli".to_string()));
    assert_eq!(harness_command(&hs, "gemini"), None);
}

#[test]
fn spawn_config_gains_defaults_only_when_missing() {
    let cfg = spawn_adapter_config(None, "acp", Some("acp-bin"));
    match cfg {
        JsonValue::Object(fields) => {
            assert_eq!(fields.len(), 2);
            assert_eq!(fields[0].0, "adapter_type");
            assert!(matches!(&fields[0].1, JsonValue::String(s) if s == "acp"));
            assert_eq!(fields[1].0, "command");
        }
        other => panic!("unexpected {other:?}"),
    }
    let given = JsonValue::Object(vec![("adapter_type".into(), JsonValue::String("goose".into()))]);
    match spawn_adapter_config(Some(given), "acp", None) {
        JsonValue::Object(fields) => {
            assert_eq!(fields.len(), 1);
            assert!(matches!(&fields[0].1, JsonValue::String(s) if s == "goose"));
        }
        other => panic!("unexpected {other:?}"),
    }
    assert!(matches!(spawn_adapter_config(Some(JsonValue::Bool(true)), "acp", None), JsonValue::Bool(true)));
}

#[test]
fn spawn_answers() {
    let ok = spawn_success("01ABC");
    assert_eq!(ok.message, "agent 01ABC spawned");
    let (code, m) = spawn_failure_response(&SpawnFailure::MaxAgentsReached(4));
    assert_eq!(code, 503);
    assert_eq!(m.message, "maximum concurrent agents reached (4)");
    let (code, m) = spawn_failure_response(&SpawnFailure::AdapterError("boom".into()));
    assert_eq!(code, 502);
    assert_eq!(m.message, "adapter error: boom");
    let (code, _) = spawn_failure_response(&SpawnFailure::Other("x".into()));
    assert_eq!(code, 500);
    let (code, m) = check_working_dir("   ").unwrap_err();
    assert_eq!(code, 400);
    assert_eq!(m.message, "working_dir must not be empty");
    assert_eq!(check_working_dir(" /tmp/x ").unwrap(), "/tmp/x");
}

#[test]
fn steer_answers() {
    assert_eq!(steer_priority(Some("urgent")), SteerPriority::Urgent);
    assert_eq!(steer_priority(Some("high")), SteerPriority::Normal);
    assert_eq!(steer_priority(None), SteerPriority::Normal);
    let (code, m) = steer_failure_response("a1", &SteerFailure::AgentNotFound);
    assert_eq!((code, m.message.as_str()), (404, "agent not found: a1"));
    let (code, m) = steer_failure_response("a1", &SteerFailure::AgentNotRunning);
    assert_eq!((code, m.message.as_str()), (409, "agent not running: a1"));
    let (code, m) = steer_failure_response("a1", &SteerFailure::Other("x".into()));
    assert_eq!((code, m.message.as_str()), (500, "steer failed: x"));
}

#[test]
fn agent_action_answers() {
    let (code, m) = agent_action_response(AgentAction::Pause, "a1", Ok(()));
    assert_eq!((code, m.message.as_str()), (200, "agent a1 paused"));
    let (code, m) = agent_action_response(AgentAction::Terminate, "a1", Err("gone".into()));
    assert_eq!((code, m.message.as_str()), (404, "failed to terminate agent: gone"));
    let (code, m) = invalid_agent_id_response("xyz");
    assert_eq!((code, m.message.as_str()), (400, "invalid agent ID: xyz"));
}

#[test]
fn list_and_output_answers() {
    let r = agents_list_response(vec![AgentResponse {
        agent_id: "a".into(),
        task_id: "t".into(),
        status: "Running".into(),
    }]);
    assert_eq!(r.count, 1);
    let out = agent_output_response("a", &vec![OutputLine { line: "hi".into(), timestamp: 0 }]);
    assert_eq!(out.count, 1);
    assert_eq!(out.lines[0].line, "hi");
    assert_eq!(out.lines[0].timestamp, "1970-01-01T00:00:00+00:00");
}

#[test]
fn login_helpers() {
    assert_eq!(login_adapter_type(None, "acp"), "acp");
    assert_eq!(login_adapter_type(Some("goose"), "acp"), "goose");
    assert_eq!(login_failure_detail("  ", "out"), "out");
    assert_eq!(login_failure_detail("err", "out"), "err");
}

#[test]
fn steer_request_priority() {
    use_steer();
}

fn use_steer() {
    let urgent = molt_hub_server::agents::requests::SteerRequest {
        message: "stop".into(),
        priority: Some("urgent".into()),
    };
    assert_eq!(urgent.steer_priority(), molt_hub_server::agents::requests::SteerPriority::Urgent);
    let plain = molt_hub_server::agents::requests::SteerRequest { message: "go".into(), priority: None };
    assert_eq!(plain.steer_priority(), molt_hub_server::agents::requests::SteerPriority::Normal);
    let other = molt_hub_server::agents::requests::SteerRequest {
        message: "go".into(),
        priority: Some("URGENT".into()),
    };
    assert_eq!(other.steer_priority(), molt_hub_server::agents::requests::SteerPriority::Normal);
}
