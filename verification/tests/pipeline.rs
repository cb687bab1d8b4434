use molt_hub_server::hooks::{HookConfig, HookDefinition, HookKind, HookTrigger};
use molt_hub_server::pipeline::stages::{
    migrate_default_hooks, stage_from_response, stage_to_response, PipelineConfig,
    stage_requires_approval, PipelineConfigStore, StagePatch, StageResponse, StagesResponse,
};
use molt_hub_server::boards::{board_not_found_message, delete_board_error_status, CreateBoardRequest};

fn sample_stage(
    id: &str,
    label: &str,
    wip_limit: Option<u32>,
    requires_approval: bool,
    timeout_seconds: Option<u64>,
    terminal: bool,
    color: Option<String>,
    order: u32,
) -> StageResponse {
    StageResponse {
        id: id.into(),
        label: label.into(),
        wip_limit,
        requires_approval,
        timeout_seconds,
        terminal,
        color,
        order,
        hooks: vec![],
        transition_rules: vec![],
        instructions: None,
        instructions_template: None,
        approvers: vec![],
    }
}

fn simple(id: &str) -> StageResponse {
    sample_stage(id, id, None, false, None, false, None, 0)
}

fn store_with(ids: &[&str]) -> PipelineConfigStore {
    PipelineConfigStore::in_memory_with(ids.iter().map(|i| simple(i)).collect())
}

fn ids(store: &PipelineConfigStore) -> Vec<String> {
    store.get_stages().into_iter().map(|s| s.id).collect()
}

#[test]
fn get_stages_custom_state() {
    let store = PipelineConfigStore::in_memory_with(vec![
        sample_stage("todo", "To Do", Some(5), false, None, false, Some("#ff0000".into()), 0),
        sample_stage("done", "Done", None, false, None, true, None, 1),
    ]);
    let stages = store.get_stages();
    assert_eq!(stages.len(), 2);
    assert_eq!(stages[0].id, "todo");
    assert_eq!(stages[0].label, "To Do");
    assert_eq!(stages[0].wip_limit, Some(5));
    assert_eq!(stages[0].color.as_deref(), Some("#ff0000"));
    assert!(stages[1].terminal);
    assert_eq!(store.pipeline_display_name(), "default");
}

#[test]
fn label_equal_to_id_is_not_stored() {
    let def = stage_from_response(sample_stage("  review ", "review", None, false, None, false, None, 2)).unwrap();
    assert_eq!(def.name, "review");
    assert_eq!(def.label, None);
    let back = stage_to_response(&def);
    assert_eq!(back.label, "review");
    assert_eq!(back.order, 2);
    assert_eq!(stage_from_response(simple("   ")).unwrap_err(), "stage id must be non-empty");
}

#[test]
fn put_stages_replaces_all() {
    let mut store = store_with(&["a", "b"]);
    let body = StagesResponse { stages: vec![simple("x"), simple("y"), simple("z")], columns: Some(vec!["{}".into()]) };
    store.set_stages_response(body).unwrap();
    assert_eq!(ids(&store), vec!["x", "y", "z"]);
    assert_eq!(store.get_stages_response().columns, Some(vec!["{}".to_string()]));
}

#[test]
fn put_stages_rejects_empty() {
    let mut store = store_with(&["a"]);
    let err = store.set_stages_response(StagesResponse { stages: vec![], columns: None }).unwrap_err();
    assert_eq!(err, "pipeline must have at least one stage");
    assert_eq!(ids(&store), vec!["a"]);
}

#[test]
fn put_stages_rejects_duplicates() {
    let mut store = store_with(&["a"]);
    let body = StagesResponse { stages: vec![simple("x"), simple("y"), simple("x")], columns: None };
    assert_eq!(store.set_stages_response(body).unwrap_err(), "duplicate stage id: x");
    assert_eq!(ids(&store), vec!["a"]);
}

#[test]
fn post_stage_adds_one() {
    let mut store = store_with(&["a"]);
    store.add_stage(simple("b")).unwrap();
    assert_eq!(ids(&store), vec!["a", "b"]);
}

#[test]
fn post_stage_rejects_duplicate_id() {
    let mut store = store_with(&["a"]);
    assert_eq!(store.add_stage(simple(" a ")).unwrap_err(), "stage with id 'a' already exists");
    assert_eq!(ids(&store), vec!["a"]);
}

#[test]
fn patch_stage_updates_multiple_fields() {
    let mut store = store_with(&["a", "b"]);
    let patch = StagePatch {
        label: Some("Bee".into()),
        wip_limit: Some(Some(3)),
        color: Some(Some("#123456".into())),
        order: Some(9),
        ..Default::default()
    };
    let updated = store.patch_stage("b", patch).unwrap();
    assert_eq!(updated.label, "Bee");
    assert_eq!(updated.wip_limit, Some(3));
    assert_eq!(updated.order, 9);
    assert_eq!(store.get_stages()[0].label, "a");
}

#[test]
fn patch_stage_clears_color_with_null() {
    let mut store = PipelineConfigStore::in_memory_with(vec![sample_stage("a", "A", None, false, None, false, Some("#fff".into()), 0)]);
    let updated = store.patch_stage("a", StagePatch { color: Some(None), ..Default::default() }).unwrap();
    assert_eq!(updated.color, None);
}

#[test]
fn patch_stage_not_found() {
    let mut store = store_with(&["a"]);
    assert_eq!(store.patch_stage("zzz", StagePatch::default()).unwrap_err(), "stage with id 'zzz' not found");
}

#[test]
fn patch_stage_empty_body_is_noop() {
    let mut store = PipelineConfigStore::in_memory_with(vec![sample_stage("a", "A", Some(2), true, Some(30), false, None, 1)]);
    let updated = store.patch_stage("a", StagePatch::default()).unwrap();
    assert_eq!(updated.label, "A");
    assert_eq!(updated.wip_limit, Some(2));
    assert!(updated.requires_approval);
    assert_eq!(updated.timeout_seconds, Some(30));
}

#[test]
fn delete_stage_removes_one() {
    let mut store = store_with(&["a", "b", "c"]);
    store.remove_stage("b").unwrap();
    assert_eq!(ids(&store), vec!["a", "c"]);
}

#[test]
fn delete_stage_not_found() {
    let mut store = store_with(&["a"]);
    assert_eq!(store.remove_stage("nope").unwrap_err(), "stage with id 'nope' not found");
    assert_eq!(ids(&store), vec!["a"]);
}

#[test]
fn delete_last_stage_is_refused_and_keeps_it() {
    let mut store = store_with(&["only"]);
    assert_eq!(store.remove_stage("only").unwrap_err(), "cannot remove last stage");
    assert_eq!(ids(&store), vec!["only".to_string()]);
    assert!(store.remove_stage("nonexistent").is_err());
    assert_eq!(ids(&store), vec!["only".to_string()]);
}

#[test]
fn add_then_remove_restores_stages() {
    let mut store = store_with(&["a", "b"]);
    store.add_stage(simple("c")).unwrap();
    store.remove_stage("c").unwrap();
    assert_eq!(ids(&store), vec!["a", "b"]);
}

fn hook() -> HookDefinition {
    HookDefinition {
        kind: HookKind::Shell,
        on: HookTrigger::Enter,
        config: HookConfig {
            failure_policy: None,
            retry_max_attempts: None,
            retry_delay_ms: None,
            execution_mode: None,
            command: Some("echo hi".into()),
            instruction: None,
            timeout_seconds: None,
            working_dir: None,
        },
    }
}

fn config(stages: Vec<StageResponse>) -> PipelineConfig {
    PipelineConfigStore::in_memory_with(stages).config
}

#[test]
fn migration_fills_only_empty_hook_lists() {
    let mut with_hook = simple("build");
    with_hook.hooks = vec![hook()];
    let defaults = config(vec![with_hook, simple("review")]);
    let mut cfg = config(vec![simple("build"), simple("review"), simple("other")]);
    assert!(migrate_default_hooks(&mut cfg, &defaults));
    assert_eq!(cfg.stages[0].hooks.len(), 1);
    assert!(cfg.stages[1].hooks.is_empty());
    assert!(cfg.stages[2].hooks.is_empty());
    assert!(!migrate_default_hooks(&mut cfg, &defaults));
}

#[test]
fn board_errors_are_answered_by_kind() {
    assert_eq!(delete_board_error_status("board 'b9' not found"), 404);
    assert_eq!(delete_board_error_status("cannot delete the last board"), 400);
    assert_eq!(board_not_found_message("b9"), "board 'b9' not found");
    let req = CreateBoardRequest { name: "Roadmap".into() };
    assert_eq!(req.name, "Roadmap");
}

#[test]
fn leaving_an_approval_stage_needs_approval() {
    let stages: Vec<_> = vec![
        sample_stage("review", "Review", None, true, None, false, None, 0),
        simple("backlog"),
    ]
    .into_iter()
    .map(|r| stage_from_response(r).unwrap())
    .collect();
    assert!(stage_requires_approval(&stages, "review"));
    assert!(!stage_requires_approval(&stages, "backlog"));
    assert!(!stage_requires_approval(&stages, "missing"));
}
