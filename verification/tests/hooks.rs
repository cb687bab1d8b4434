use molt_hub_server::hooks::{
    before_first_attempt, dispatch_params, hook_kind_name, next_policy_step, select_hooks,
    shell_command, shell_outcome, ExecutionMode, FailurePolicy, HookConfig, HookDefinition,
    HookExecutorError, HookKind, HookResult, HookTrigger, PolicyStep, ShellExit,
};
use molt_hub_server::integrations::json::JsonValue;

fn json_obj(members: Vec<(&str, JsonValue)>) -> JsonValue {
    JsonValue::Object(members.into_iter().map(|(k, v)| (k.to_string(), v)).collect())
}

fn config(members: Vec<(&str, JsonValue)>) -> HookConfig {
    HookConfig::from_json(&json_obj(members))
}

#[test]
fn failure_policy_defaults_to_abort() {
    assert_eq!(FailurePolicy::from_config(&config(vec![])), FailurePolicy::Abort);
}

#[test]
fn failure_policy_continue_parsed() {
    let c = config(vec![("failure_policy", JsonValue::String("continue".into()))]);
    assert_eq!(FailurePolicy::from_config(&c), FailurePolicy::Continue);
}

#[test]
fn failure_policy_retry_parsed_with_defaults() {
    let c = config(vec![("failure_policy", JsonValue::String("retry".into()))]);
    assert_eq!(FailurePolicy::from_config(&c), FailurePolicy::Retry { max_attempts: 3, delay_ms: 500 });
}

#[test]
fn failure_policy_retry_reads_numbers() {
    let c = config(vec![
        ("failure_policy", JsonValue::String("retry".into())),
        ("retry_max_attempts", JsonValue::Number("5".into())),
        ("retry_delay_ms", JsonValue::Number("20".into())),
    ]);
    assert_eq!(FailurePolicy::from_config(&c), FailurePolicy::Retry { max_attempts: 5, delay_ms: 20 });
}

#[test]
fn execution_mode_defaults_to_sequential() {
    assert_eq!(ExecutionMode::from_config(&config(vec![])), ExecutionMode::Sequential);
}

#[test]
fn execution_mode_parallel_parsed() {
    let c = config(vec![("execution_mode", JsonValue::String("parallel".into()))]);
    assert_eq!(ExecutionMode::from_config(&c), ExecutionMode::Parallel);
}

#[test]
fn config_field_of_wrong_type_is_absent() {
    let c = config(vec![
        ("command", JsonValue::Number("3".into())),
        ("timeout_seconds", JsonValue::String("10".into())),
    ]);
    assert_eq!(c.command, None);
    assert_eq!(c.timeout_seconds, None);
}

fn hook(on: HookTrigger, mode: Option<&str>) -> HookDefinition {
    let members = match mode {
        Some(m) => vec![("execution_mode", JsonValue::String(m.into()))],
        None => vec![],
    };
    HookDefinition { kind: HookKind::Shell, on, config: config(members) }
}

#[test]
fn select_hooks_by_trigger_with_first_mode() {
    let hooks = vec![
        hook(HookTrigger::Exit, None),
        hook(HookTrigger::Enter, Some("parallel")),
        hook(HookTrigger::Enter, None),
    ];
    let (idx, mode) = select_hooks(&hooks, HookTrigger::Enter);
    assert_eq!(idx, vec![1, 2]);
    assert_eq!(mode, Some(ExecutionMode::Parallel));
    let (idx, mode) = select_hooks(&hooks, HookTrigger::OnStall);
    assert!(idx.is_empty());
    assert_eq!(mode, None);
}

#[test]
fn retry_policy_waits_then_gives_up() {
    let policy = FailurePolicy::Retry { max_attempts: 2, delay_ms: 10 };
    let failed = || HookResult::Failed { error: "x".into(), retryable: true };
    assert_eq!(next_policy_step(policy, HookKind::Shell, 1, failed()), PolicyStep::RetryAfter(10));
    assert_eq!(
        next_policy_step(policy, HookKind::Shell, 2, failed()),
        PolicyStep::Done(Err(HookExecutorError::AllRetriesExhausted { hook_kind: "shell".into(), attempts: 2 }))
    );
    let not_retryable = HookResult::Failed { error: "x".into(), retryable: false };
    assert_eq!(
        next_policy_step(policy, HookKind::Shell, 1, not_retryable.clone()),
        PolicyStep::Done(Ok(not_retryable))
    );
}

#[test]
fn abort_policy_turns_failure_into_error() {
    let step = next_policy_step(
        FailurePolicy::Abort,
        HookKind::AgentDispatch,
        1,
        HookResult::Failed { error: "bad".into(), retryable: true },
    );
    assert_eq!(
        step,
        PolicyStep::Done(Err(HookExecutorError::Aborted { hook_kind: "agent_dispatch".into(), error: "bad".into() }))
    );
}

#[test]
fn zero_attempt_retry_skips() {
    let r = before_first_attempt(FailurePolicy::Retry { max_attempts: 0, delay_ms: 1 });
    assert_eq!(r, Some(Ok(HookResult::Skipped { reason: "no attempts made".into() })));
    assert_eq!(before_first_attempt(FailurePolicy::Continue), None);
}

#[test]
fn hook_kind_names() {
    assert_eq!(hook_kind_name(HookKind::TeardownDevEnvironment), "teardown_dev_environment");
}

#[test]
fn shell_hook_without_command_fails() {
    let r = shell_command(&config(vec![]));
    assert_eq!(
        r,
        Err(HookResult::Failed { error: "shell hook missing required 'command' field".into(), retryable: false })
    );
}

#[test]
fn shell_outcome_reports_exit_code() {
    let r = shell_outcome("out\n", " err ", ShellExit::Code(2));
    match r {
        HookResult::Failed { error, .. } => assert!(error.starts_with("exit code 2")),
        other => panic!("unexpected {other:?}"),
    }
    assert!(matches!(shell_outcome("", "", ShellExit::Success), HookResult::Success { .. }));
}

#[test]
fn dispatch_requires_instruction() {
    assert!(dispatch_params(&config(vec![])).is_err());
    let p = dispatch_params(&config(vec![("instruction", JsonValue::String("go".into()))])).unwrap();
    assert_eq!(p.instruction, "go");
}
