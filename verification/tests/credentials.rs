use molt_hub_server::credentials::{
    credential_scope_for_integration, storage_key, CredentialAliasIndex, CredentialError,
    CredentialScope, KeyringStore, MemoryStore, ProjectId,
};

fn global() -> CredentialScope {
    CredentialScope::Global
}

fn pipeline(name: &str) -> CredentialScope {
    CredentialScope::Pipeline(name.into())
}

#[test]
fn store_and_retrieve_roundtrip() {
    let mut store = MemoryStore::new();
    store.store("TOKEN", &global(), "secret123").unwrap();
    assert_eq!(store.retrieve("TOKEN", &global()).unwrap(), "secret123");
}

#[test]
fn retrieve_missing_returns_not_found() {
    let store = MemoryStore::new();
    let err = store.retrieve("MISSING", &global()).unwrap_err();
    assert!(matches!(err, CredentialError::NotFound { .. }));
}

#[test]
fn overwrite_existing_credential() {
    let mut store = MemoryStore::new();
    store.store("TOKEN", &global(), "v1").unwrap();
    store.store("TOKEN", &global(), "v2").unwrap();
    assert_eq!(store.retrieve("TOKEN", &global()).unwrap(), "v2");
}

#[test]
fn delete_removes_credential() {
    let mut store = MemoryStore::new();
    store.store("TOKEN", &global(), "secret").unwrap();
    store.delete("TOKEN", &global()).unwrap();
    assert!(matches!(store.retrieve("TOKEN", &global()), Err(CredentialError::NotFound { .. })));
}

#[test]
fn delete_nonexistent_is_ok() {
    let mut store = MemoryStore::new();
    assert!(store.delete("NOPE", &global()).is_ok());
}

#[test]
fn list_returns_aliases_for_scope() {
    let mut store = MemoryStore::new();
    let scope = pipeline("ci");
    store.store("ALPHA", &scope, "a").unwrap();
    store.store("BETA", &scope, "b").unwrap();
    store.store("GAMMA", &global(), "g").unwrap();
    let mut aliases = store.list(&scope).unwrap();
    aliases.sort();
    assert_eq!(aliases, vec!["ALPHA", "BETA"]);
}

#[test]
fn list_empty_scope_returns_empty() {
    let store = MemoryStore::new();
    assert!(store.list(&global()).unwrap().is_empty());
}

#[test]
fn list_is_sorted() {
    let mut store = MemoryStore::new();
    store.store("zeta", &global(), "1").unwrap();
    store.store("alpha", &global(), "2").unwrap();
    store.store("mid", &global(), "3").unwrap();
    assert_eq!(store.list(&global()).unwrap(), vec!["alpha", "mid", "zeta"]);
}

#[test]
fn scope_isolation() {
    let mut store = MemoryStore::new();
    let g = global();
    let p = pipeline("ci");
    store.store("TOKEN", &g, "global_val").unwrap();
    store.store("TOKEN", &p, "pipeline_val").unwrap();
    assert_eq!(store.retrieve("TOKEN", &g).unwrap(), "global_val");
    assert_eq!(store.retrieve("TOKEN", &p).unwrap(), "pipeline_val");
}

#[test]
fn empty_alias_returns_error() {
    let mut store = MemoryStore::new();
    assert!(matches!(store.store("", &global(), "val"), Err(CredentialError::InvalidAlias(_))));
}

#[test]
fn not_found_names_alias_and_scope() {
    let store = MemoryStore::new();
    let err = store.retrieve("K", &pipeline("ci")).unwrap_err();
    assert_eq!(err, CredentialError::NotFound { alias: "K".into(), scope: "pipeline:ci".into() });
}

#[test]
fn register_list_roundtrip() {
    let mut idx = CredentialAliasIndex::new();
    let scope = CredentialScope::Global;
    idx.register(&scope, "a/token");
    idx.register(&scope, "b/token");
    let mut list = idx.list(&scope);
    list.sort();
    assert_eq!(list, vec!["a/token", "b/token"]);
}

#[test]
fn scopes_stay_isolated() {
    let mut idx = CredentialAliasIndex::new();
    let g = CredentialScope::Global;
    let p = CredentialScope::Project(ProjectId(ulid::Ulid::new().0));
    idx.register(&g, "x");
    idx.register(&p, "y");
    assert_eq!(idx.list(&g), vec!["x"]);
    assert_eq!(idx.list(&p), vec!["y"]);
}

#[test]
fn unregister_removes_alias() {
    let mut idx = CredentialAliasIndex::new();
    let scope = CredentialScope::Global;
    idx.register(&scope, "only");
    idx.unregister(&scope, "only");
    assert!(idx.list(&scope).is_empty());
}

#[test]
fn register_twice_lists_once() {
    let mut idx = CredentialAliasIndex::new();
    idx.register(&global(), "same");
    idx.register(&global(), "same");
    assert_eq!(idx.list(&global()), vec!["same"]);
}

#[test]
fn scope_display_global() {
    assert_eq!(CredentialScope::Global.to_string(), "global");
}

#[test]
fn scope_display_pipeline() {
    assert_eq!(CredentialScope::Pipeline("ci".into()).to_string(), "pipeline:ci");
}

#[test]
fn scope_display_stage() {
    assert_eq!(CredentialScope::Stage("ci".into(), "build".into()).to_string(), "stage:ci:build");
}

#[test]
fn scope_display_project() {
    let id = ulid::Ulid::new();
    assert_eq!(CredentialScope::Project(ProjectId(id.0)).to_string(), format!("project:{id}"));
}

#[test]
fn credential_scope_for_integration_defaults() {
    assert!(matches!(credential_scope_for_integration(None), CredentialScope::Global));
    assert!(matches!(credential_scope_for_integration(Some("")), CredentialScope::Global));
    assert!(matches!(credential_scope_for_integration(Some("default")), CredentialScope::Global));
    assert!(matches!(credential_scope_for_integration(Some("not-a-ulid")), CredentialScope::Global));
}

#[test]
fn credential_scope_for_integration_parses_ulid() {
    let id = ulid::Ulid::new();
    let s = id.to_string();
    match credential_scope_for_integration(Some(&s)) {
        CredentialScope::Project(p) => assert_eq!(p, ProjectId(id.0)),
        _ => panic!("expected Project scope"),
    }
}

#[test]
fn storage_key_format() {
    let key = storage_key("MY_TOKEN", &CredentialScope::Pipeline("ci".into()));
    assert_eq!(key, "molt-hub:pipeline:ci:MY_TOKEN");
}

#[test]
fn storage_key_global() {
    assert_eq!(storage_key("API_KEY", &CredentialScope::Global), "molt-hub:global:API_KEY");
}

#[test]
fn keyring_account_is_storage_key() {
    let _store = KeyringStore::new();
    assert_eq!(KeyringStore::account("A", &CredentialScope::Global), "global:A");
}

#[test]
fn credential_env_entry_names_alias_and_fd() {
    let (key, value) = molt_hub_server::credentials::fd_env::credential_fd_env("API-KEY", 7);
    assert_eq!(key, "MOLT_CRED_API_KEY");
    assert_eq!(value, "fd:7");
    let (key, _) = molt_hub_server::credentials::fd_env::credential_fd_env("my-token", 12);
    assert_eq!(key, "MOLT_CRED_MY_TOKEN");
}

#[test]
fn pipeline_listing_is_isolated() {
    let mut store = MemoryStore::new();
    store.store("TOKEN", &CredentialScope::Pipeline("ci".into()), "v1").unwrap();
    store.store("X", &CredentialScope::Pipeline("ci:dev".into()), "v2").unwrap();
    assert_eq!(store.list(&CredentialScope::Pipeline("ci".into())).unwrap(), vec!["TOKEN".to_string()]);
    assert_eq!(store.list(&CredentialScope::Pipeline("ci:dev".into())).unwrap(), vec!["X".to_string()]);
}
